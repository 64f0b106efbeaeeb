use hc_web_leptos::json::{compact_json, Json, JsonNumber};
use hc_web_leptos::rule_options::{ButtonEventType, ChangeKind, CompareOp, PeriodicUnit, SunEventType, ThresholdOp};
use hc_web_leptos::rule_values::{default_trigger, TriggerValue};
use hc_web_leptos::trigger_edits::{
    add_watched_device, edit_trigger, remove_watched_device, MatchField, TriggerEdit, TriggerOptText, TriggerText,
};

fn opt_text(j: &Option<Json>) -> Option<String> {
    j.as_ref().map(compact_json)
}

#[test]
fn state_trigger_match_boxes() {
    let mut t = default_trigger("device_state_changed");
    edit_trigger(&mut t, TriggerEdit::OptText(TriggerOptText::Attribute, "power".to_string()));
    edit_trigger(&mut t, TriggerEdit::Match(MatchField::To, "\"on\"".to_string()));
    edit_trigger(&mut t, TriggerEdit::Match(MatchField::From, "off".to_string()));
    edit_trigger(&mut t, TriggerEdit::Match(MatchField::NotTo, "  ".to_string()));
    edit_trigger(&mut t, TriggerEdit::HoldSecs(" 30 ".to_string()));
    edit_trigger(&mut t, TriggerEdit::ChangeKind("physical".to_string()));
    edit_trigger(&mut t, TriggerEdit::OptText(TriggerOptText::ChangeSource, String::new()));
    match &t {
        TriggerValue::DeviceStateChanged { attribute, to, from, not_to, for_duration_secs, change_kind, change_source, .. } => {
            assert_eq!(attribute.as_deref(), Some("power"));
            assert_eq!(opt_text(to), Some("\"on\"".to_string()));
            assert_eq!(opt_text(from), Some("\"off\"".to_string()));
            assert!(not_to.is_none());
            assert_eq!(*for_duration_secs, Some(30));
            assert_eq!(*change_kind, Some(ChangeKind::Physical));
            assert!(change_source.is_none());
        }
        _ => panic!("the trigger changed variant"),
    }
}

#[test]
fn state_trigger_watched_devices() {
    let mut t = default_trigger("device_state_changed");
    add_watched_device(&mut t, "lamp");
    add_watched_device(&mut t, "fan");
    add_watched_device(&mut t, "lamp");
    add_watched_device(&mut t, "");
    match &t {
        TriggerValue::DeviceStateChanged { device_id, device_ids, .. } => {
            assert_eq!(device_id, "lamp");
            assert_eq!(device_ids, &vec!["lamp".to_string(), "fan".to_string()]);
        }
        _ => panic!("the trigger changed variant"),
    }
    remove_watched_device(&mut t, 0);
    match &t {
        TriggerValue::DeviceStateChanged { device_id, device_ids, .. } => {
            assert_eq!(device_id, "fan");
            assert!(device_ids.is_empty());
        }
        _ => panic!("the trigger changed variant"),
    }
}

#[test]
fn threshold_and_button_fields() {
    let mut t = default_trigger("numeric_threshold");
    edit_trigger(&mut t, TriggerEdit::Text(TriggerText::DeviceId, "thermo".to_string()));
    edit_trigger(&mut t, TriggerEdit::ThresholdKind("Below".to_string()));
    edit_trigger(&mut t, TriggerEdit::Threshold(Some(Json::Number(JsonNumber::Float("18.5".to_string())))));
    edit_trigger(&mut t, TriggerEdit::Threshold(None));
    match &t {
        TriggerValue::NumericThreshold { device_id, op, value, .. } => {
            assert_eq!(device_id, "thermo");
            assert_eq!(*op, ThresholdOp::Below);
            assert_eq!(compact_json(value), "18.5");
        }
        _ => panic!("the trigger changed variant"),
    }
    let mut b = default_trigger("button_event");
    edit_trigger(&mut b, TriggerEdit::ButtonKind("Held".to_string()));
    edit_trigger(&mut b, TriggerEdit::ButtonNumber(" 2 ".to_string()));
    assert!(matches!(&b, TriggerValue::ButtonEvent { event: ButtonEventType::Held, button_number: Some(2), .. }));
    edit_trigger(&mut b, TriggerEdit::ButtonNumber("two".to_string()));
    assert!(matches!(&b, TriggerValue::ButtonEvent { button_number: None, .. }));
}

#[test]
fn time_and_days() {
    let mut t = default_trigger("time_of_day");
    edit_trigger(&mut t, TriggerEdit::Time("06:45".to_string()));
    edit_trigger(&mut t, TriggerEdit::Time("25:99".to_string()));
    edit_trigger(&mut t, TriggerEdit::Day(6, false));
    edit_trigger(&mut t, TriggerEdit::Day(0, true));
    match &t {
        TriggerValue::TimeOfDay { time_secs, days } => {
            assert_eq!(*time_secs, 6 * 3600 + 45 * 60);
            assert_eq!(days, &vec![0, 1, 2, 3, 4, 5]);
        }
        _ => panic!("the trigger changed variant"),
    }
}

#[test]
fn sun_periodic_calendar_mqtt() {
    let mut s = default_trigger("sun_event");
    edit_trigger(&mut s, TriggerEdit::SunKind("Sunrise".to_string()));
    edit_trigger(&mut s, TriggerEdit::SunOffset("-20".to_string()));
    edit_trigger(&mut s, TriggerEdit::SunOffset("3000000000".to_string()));
    assert!(matches!(&s, TriggerValue::SunEvent { event: SunEventType::Sunrise, offset_minutes: -20 }));
    let mut p = default_trigger("periodic");
    edit_trigger(&mut p, TriggerEdit::EveryN("2".to_string()));
    edit_trigger(&mut p, TriggerEdit::Unit("Hours".to_string()));
    assert!(matches!(&p, TriggerValue::Periodic { every_n: 2, unit: PeriodicUnit::Hours }));
    let mut c = default_trigger("calendar_event");
    edit_trigger(&mut c, TriggerEdit::OptText(TriggerOptText::TitleContains, "Holiday".to_string()));
    edit_trigger(&mut c, TriggerEdit::CalendarOffset("15".to_string()));
    assert!(matches!(&c, TriggerValue::CalendarEvent { title_contains: Some(ref x), offset_minutes: 15, .. } if x == "Holiday"));
    let mut m = default_trigger("mqtt_message");
    edit_trigger(&mut m, TriggerEdit::MqttOp("Gte".to_string()));
    edit_trigger(&mut m, TriggerEdit::MqttCmp("80".to_string()));
    match &m {
        TriggerValue::MqttMessage { topic_pattern, value_op, value_cmp, .. } => {
            assert_eq!(topic_pattern, "homecore/devices/+/state");
            assert_eq!(*value_op, Some(CompareOp::Gte));
            assert_eq!(opt_text(value_cmp), Some("80".to_string()));
        }
        _ => panic!("the trigger changed variant"),
    }
    edit_trigger(&mut m, TriggerEdit::MqttCmp(String::new()));
    edit_trigger(&mut m, TriggerEdit::MqttOp(String::new()));
    assert!(matches!(&m, TriggerValue::MqttMessage { value_op: None, value_cmp: None, .. }));
}

#[test]
fn availability_and_mode_directions() {
    let mut a = default_trigger("device_availability_changed");
    edit_trigger(&mut a, TriggerEdit::Availability("offline".to_string()));
    assert!(matches!(&a, TriggerValue::DeviceAvailabilityChanged { to: Some(false), .. }));
    let mut m = default_trigger("mode_changed");
    edit_trigger(&mut m, TriggerEdit::OptText(TriggerOptText::ModeId, "mode_night".to_string()));
    edit_trigger(&mut m, TriggerEdit::ModeDirection("on".to_string()));
    assert!(matches!(&m, TriggerValue::ModeChanged { mode_id: Some(ref id), to: Some(true) } if id == "mode_night"));
    let mut w = default_trigger("webhook_received");
    edit_trigger(&mut w, TriggerEdit::Text(TriggerText::WebhookPath, "/hooks/door".to_string()));
    edit_trigger(&mut w, TriggerEdit::ModeDirection("on".to_string()));
    assert!(matches!(&w, TriggerValue::WebhookReceived { path } if path == "/hooks/door"));
}
