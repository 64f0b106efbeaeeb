use hc_web_leptos::devices::{
    action_disabled, begin_command, command_answered, intent_patch, page_after_settings, primary_action, CommandBar,
    CommandIntent, LiveDevice, PrimaryAction, PrimaryFacts,
};
use hc_web_leptos::json::{compact_json, Json, JsonNumber};
use hc_web_leptos::rule_options::ChangeKind;
use hc_web_leptos::mode_list::{card_can_delete, ModeFlavor};

fn facts() -> PrimaryFacts {
    PrimaryFacts {
        inline_toggle: false,
        is_on: false,
        is_media_player: false,
        playing: false,
        supports_pause: false,
        supports_play: false,
    }
}

#[test]
fn toggle_button_hands_on_intent() {
    let f = PrimaryFacts { inline_toggle: true, is_on: true, ..facts() };
    match primary_action("lamp", &f) {
        PrimaryAction::Command(c) => {
            assert_eq!(c.device_id, "lamp");
            assert_eq!(compact_json(&c.body), "{\"on\":false}");
            assert_eq!(c.label, "Turn off");
            assert_eq!(c.intent, CommandIntent::Toggle(false));
        }
        PrimaryAction::Details { .. } => panic!("expected a toggle"),
    }
}

#[test]
fn media_buttons_pause_or_play() {
    let playing = PrimaryFacts { is_media_player: true, playing: true, supports_pause: true, supports_play: true, ..facts() };
    match primary_action("tv", &playing) {
        PrimaryAction::Command(c) => {
            assert_eq!(compact_json(&c.body), "{\"action\":\"pause\"}");
            assert_eq!((c.label.as_str(), c.intent), ("Pause", CommandIntent::Pause));
        }
        PrimaryAction::Details { .. } => panic!("expected pause"),
    }
    let idle = PrimaryFacts { is_media_player: true, supports_play: true, ..facts() };
    match primary_action("tv", &idle) {
        PrimaryAction::Command(c) => assert_eq!((c.label.as_str(), c.intent), ("Play", CommandIntent::Play)),
        PrimaryAction::Details { .. } => panic!("expected play"),
    }
    match primary_action("sensor", &facts()) {
        PrimaryAction::Details { href } => assert_eq!(href, "/devices/sensor"),
        PrimaryAction::Command(_) => panic!("expected a link"),
    }
}

#[test]
fn busy_device_disables_its_button() {
    assert!(action_disabled(Some("lamp"), "lamp"));
    assert!(!action_disabled(Some("fan"), "lamp"));
    assert!(!action_disabled(None, "lamp"));
}

#[test]
fn taken_commands_patch_the_row() {
    let (k, v) = intent_patch(CommandIntent::Toggle(true));
    assert_eq!((k.as_str(), compact_json(&v).as_str()), ("on", "true"));
    let (k, v) = intent_patch(CommandIntent::Pause);
    assert_eq!((k.as_str(), compact_json(&v).as_str()), ("state", "\"paused\""));
    let (_, v) = intent_patch(CommandIntent::Play);
    assert_eq!(compact_json(&v), "\"playing\"");
}

#[test]
fn settings_change_resets_page() {
    assert_eq!(page_after_settings(4, true), 4);
    assert_eq!(page_after_settings(4, false), 0);
}

#[test]
fn delete_offered_for_custom_modes() {
    assert!(card_can_delete(ModeFlavor::Manual, "mode_party"));
    assert!(card_can_delete(ModeFlavor::Criteria, "mode_away"));
    assert!(!card_can_delete(ModeFlavor::Solar, "mode_dusk"));
    assert!(!card_can_delete(ModeFlavor::Manual, "mode_day"));
    assert!(!card_can_delete(ModeFlavor::Criteria, "mode_night"));
}

fn live(id: &str) -> LiveDevice {
    LiveDevice {
        device_id: id.to_string(),
        attributes: vec![("on".to_string(), Json::Bool(false)), ("level".to_string(), Json::Number(JsonNumber::PosInt(3)))],
        last_seen: None,
        last_change: None,
    }
}

#[test]
fn taken_command_patches_the_device() {
    let mut devices = vec![live("fan"), live("lamp")];
    let mut bar = CommandBar { busy_id: None, error: Some("old".to_string()), notice: Some("x".to_string()) };
    begin_command(&mut bar, "lamp");
    assert_eq!(bar.busy_id.as_deref(), Some("lamp"));
    assert!(bar.error.is_none() && bar.notice.is_none());
    command_answered(&mut devices, &mut bar, "lamp", "Turn on", CommandIntent::Toggle(true), Ok(()));
    assert!(bar.busy_id.is_none());
    assert_eq!(bar.notice.as_deref(), Some("Turn on sent"));
    let lamp = &devices[1];
    assert_eq!(lamp.attributes.len(), 2);
    assert_eq!(lamp.attributes[0].0, "on");
    assert_eq!(compact_json(&lamp.attributes[0].1), "true");
    let change = lamp.last_change.as_ref().unwrap();
    assert_eq!(change.kind, ChangeKind::Homecore);
    assert_eq!(change.source.as_deref(), Some("api"));
    assert_eq!(lamp.last_seen, Some(change.changed_at));
    assert!(devices[0].last_change.is_none());
    command_answered(&mut devices, &mut bar, "tv", "Play", CommandIntent::Play, Ok(()));
    assert_eq!(devices.len(), 2);
}

#[test]
fn media_command_adds_state_attribute() {
    let mut devices = vec![live("tv")];
    let mut bar = CommandBar { busy_id: None, error: None, notice: None };
    command_answered(&mut devices, &mut bar, "tv", "Pause", CommandIntent::Pause, Ok(()));
    assert_eq!(devices[0].attributes.len(), 3);
    assert_eq!(devices[0].attributes[2].0, "state");
    assert_eq!(compact_json(&devices[0].attributes[2].1), "\"paused\"");
}

#[test]
fn refused_command_shows_error() {
    let mut devices = vec![live("lamp")];
    let mut bar = CommandBar { busy_id: Some("lamp".to_string()), error: None, notice: None };
    command_answered(&mut devices, &mut bar, "lamp", "Turn on", CommandIntent::Toggle(true), Err("offline".to_string()));
    assert!(bar.busy_id.is_none());
    assert_eq!(bar.error.as_deref(), Some("offline"));
    assert!(bar.notice.is_none());
    assert!(devices[0].last_change.is_none());
    assert_eq!(compact_json(&devices[0].attributes[0].1), "false");
}
