use hc_web_leptos::activity_view::{
    event_time, kind_label, log_summary_with_names, pause_label, replace_text, time_fallback,
    toggle_selected_entry, type_options, EventTime,
};
use hc_web_leptos::device_commands::{command_to_state, detect_command, device_commands, DeviceCaps};
use hc_web_leptos::devices::{
    availability_from, availability_name, device_filter_chips, device_sort_key_from, device_sort_key_text,
    distinct_sorted, load_prefs, seed_devices, next_disabled, page_clamped, page_count_text, page_info, page_slice, prev_page,
    save_prefs, sorted_filtered, toggle_request, total_pages, Availability, Density, DeviceFilter, DevicePrefs,
    DeviceRow, DeviceSortKey,
};
use hc_web_leptos::json::{compact_json, Json, JsonNumber};
use hc_web_leptos::mode_list::Moment;

fn s(x: &str) -> Json {
    Json::Str(x.to_string())
}

fn n(x: u64) -> Json {
    Json::Number(JsonNumber::PosInt(x))
}

fn obj(entries: Vec<(&str, Json)>) -> Json {
    Json::Object(entries.into_iter().map(|(k, v)| (k.to_string(), v)).collect())
}

fn strings(v: &[&str]) -> Vec<String> {
    v.iter().map(|x| x.to_string()).collect()
}

fn row(id: &str, name: &str, area: Option<&str>, available: bool, scene: bool, seen: Option<i64>) -> DeviceRow {
    DeviceRow {
        device_id: id.to_string(),
        name: name.to_string(),
        canonical_name: None,
        area: area.map(|a| a.to_string()),
        area_display: area.unwrap_or("Unassigned").to_string(),
        type_label: "Light".to_string(),
        plugin_id: "zigbee".to_string(),
        status: if available { "On".to_string() } else { "Offline".to_string() },
        available,
        is_scene: scene,
        last_change: seen.map(|secs| Moment { secs, nanos: 0 }),
        name_key: name.to_lowercase(),
        area_key: area.unwrap_or("").to_lowercase(),
        status_key: String::new(),
        type_key: "light".to_string(),
    }
}

fn filter() -> DeviceFilter {
    DeviceFilter {
        search: String::new(),
        availability: Availability::All,
        area: "all".to_string(),
        type_label: "all".to_string(),
        plugin: "all".to_string(),
    }
}

fn ids(v: &Vec<DeviceRow>) -> Vec<String> {
    v.iter().map(|d| d.device_id.clone()).collect()
}

fn caps(timer: bool, scene: bool, media: bool, attrs: Json) -> DeviceCaps {
    DeviceCaps { is_timer: timer, is_scene: scene, is_media_player: media, has_favorites: false, has_playlists: true, attributes: attrs }
}

#[test]
fn sort_and_availability_names_roundtrip() {
    for k in [DeviceSortKey::Name, DeviceSortKey::Area, DeviceSortKey::Status, DeviceSortKey::Type, DeviceSortKey::LastSeen] {
        assert_eq!(device_sort_key_from(Some(device_sort_key_text(k))), k);
    }
    assert_eq!(device_sort_key_from(None), DeviceSortKey::Name);
    for a in [Availability::All, Availability::Online, Availability::Offline] {
        assert_eq!(availability_from(Some(availability_name(a))), a);
    }
    assert_eq!(availability_from(Some("sometimes")), Availability::All);
}

#[test]
fn device_preferences_roundtrip() {
    let mut p = DevicePrefs::default_prefs();
    p.density = Density::Compact;
    p.page_size = 50;
    p.search = "lamp".to_string();
    p.availability = Availability::Offline;
    p.sort_by = DeviceSortKey::LastSeen;
    p.desc = true;
    let saved = save_prefs(&p);
    assert_eq!(
        compact_json(&saved),
        "{\"area_filter\":\"all\",\"availability\":\"offline\",\"density\":\"compact\",\"page_size\":50,\"plugin_filter\":\"all\",\"search\":\"lamp\",\"show_media\":false,\"sort_by\":\"last_seen\",\"sort_dir\":\"desc\",\"type_filter\":\"all\"}"
    );
    let back = load_prefs(Some(&saved));
    assert_eq!(back.density, Density::Compact);
    assert_eq!(back.page_size, 50);
    assert_eq!(back.search, "lamp");
    assert_eq!(back.availability, Availability::Offline);
    assert_eq!(back.sort_by, DeviceSortKey::LastSeen);
    assert!(back.desc);
    let odd = load_prefs(Some(&obj(vec![("page_size", n(7))])));
    assert_eq!(odd.page_size, 25);
    assert_eq!(odd.area_filter, "all");
    assert_eq!(load_prefs(None).page_size, 25);
}

#[test]
fn devices_filter_and_sort() {
    let devices = vec![
        row("d1", "Porch", Some("Outside"), true, false, Some(100)),
        row("d2", "attic fan", None, false, false, None),
        row("s1", "Evening scene", None, true, true, None),
        row("d3", "Desk", Some("Office"), true, false, Some(50)),
    ];
    assert_eq!(ids(&sorted_filtered(&devices, &filter(), DeviceSortKey::Name, false)), strings(&["d2", "d3", "d1"]));
    assert_eq!(ids(&sorted_filtered(&devices, &filter(), DeviceSortKey::LastSeen, true)), strings(&["d1", "d3", "d2"]));
    let mut f = filter();
    f.availability = Availability::Offline;
    assert_eq!(ids(&sorted_filtered(&devices, &f, DeviceSortKey::Name, false)), strings(&["d2"]));
    let mut f = filter();
    f.area = "Unassigned".to_string();
    assert_eq!(ids(&sorted_filtered(&devices, &f, DeviceSortKey::Name, false)), strings(&["d2"]));
    let mut f = filter();
    f.search = "  OFFICE ".to_string();
    assert_eq!(ids(&sorted_filtered(&devices, &f, DeviceSortKey::Name, false)), strings(&["d3"]));
    let mut f = filter();
    f.plugin = "other".to_string();
    assert!(sorted_filtered(&devices, &f, DeviceSortKey::Name, false).is_empty());
}

#[test]
fn paging_stays_in_range() {
    assert_eq!(total_pages(0, 25), 1);
    assert_eq!(total_pages(25, 25), 1);
    assert_eq!(total_pages(26, 25), 2);
    assert_eq!(page_clamped(5, 2), 1);
    assert_eq!(page_clamped(0, 2), 0);
    let items: Vec<u32> = (0..60).collect();
    let pages = total_pages(items.len(), 25);
    let p = page_clamped(9, pages);
    let slice = page_slice(&items, p, 25);
    assert_eq!(slice.len(), 10);
    assert_eq!(*slice[0], 50);
    assert_eq!(page_info(p, 25, 60), "51–60 of 60");
    assert_eq!(page_info(0, 25, 0), "No results");
    assert_eq!(page_info(5, 25, 60), "126–60 of 60");
    assert!(page_slice(&items, 5, 25).is_empty());
    assert!(page_slice(&items, 0, 0).is_empty());
    assert_eq!(page_count_text(p, pages), "3 / 3");
    assert_eq!(prev_page(0), 0);
    assert_eq!(prev_page(2), 1);
    assert!(next_disabled(2, 3));
    assert!(!next_disabled(1, 3));
}

#[test]
fn filter_chips_and_options() {
    let mut f = filter();
    f.search = " fan ".to_string();
    f.availability = Availability::Online;
    f.area = "a1".to_string();
    assert_eq!(device_filter_chips(&f, "Kitchen"), strings(&["Search: fan", "Online only", "Area: Kitchen"]));
    assert!(device_filter_chips(&filter(), "").is_empty());
    assert_eq!(distinct_sorted(&strings(&["b", "a", "b", "c"])), strings(&["a", "b", "c"]));
    let (body, label) = toggle_request(true);
    assert_eq!(compact_json(&body), "{\"on\":false}");
    assert_eq!(label, "Turn off");
}

#[test]
fn commands_a_device_offers() {
    let light = caps(false, false, false, obj(vec![("on", Json::Bool(true)), ("brightness_pct", n(40)), ("locked", Json::Bool(false))]));
    let keys: Vec<&str> = device_commands(&light).into_iter().map(|c| c.0).collect();
    assert_eq!(keys, vec!["on_true", "on_false", "brightness_pct", "lock", "unlock"]);
    let timer = caps(true, false, false, Json::Null);
    assert_eq!(device_commands(&timer).len(), 5);
    let scene = caps(false, true, false, Json::Null);
    assert_eq!(device_commands(&scene), vec![("activate", "Activate scene")]);
    let player = caps(false, false, true, obj(vec![("volume", n(10))]));
    let keys: Vec<&str> = device_commands(&player).into_iter().map(|c| c.0).collect();
    assert_eq!(keys, vec!["play", "pause", "stop", "next", "prev", "set_volume", "play_playlist"]);
}

#[test]
fn a_command_is_detected_from_the_state_it_sends() {
    let attrs = obj(vec![("brightness_pct", n(70)), ("volume", n(15))]);
    for cmd in ["timer_start", "timer_pause", "activate", "on_true", "on_false", "lock", "unlock", "brightness_pct", "color_temp", "position", "play", "prev", "set_volume", "set_mute", "play_playlist"] {
        let state = command_to_state(cmd, &attrs);
        assert_eq!(detect_command(&state), cmd, "command {}", cmd);
    }
    assert_eq!(compact_json(&command_to_state("brightness_pct", &attrs)), "{\"brightness_pct\":70}");
    assert_eq!(compact_json(&command_to_state("color_temp", &attrs)), "{\"color_temp\":2700}");
    assert_eq!(compact_json(&command_to_state("prev", &attrs)), "{\"action\":\"previous\"}");
    assert_eq!(compact_json(&command_to_state("bogus", &attrs)), "{}");
    assert_eq!(detect_command(&s("x")), "");
    assert_eq!(detect_command(&obj(vec![])), "");
}

#[test]
fn activity_labels_and_names() {
    assert_eq!(kind_label("device_state_changed"), "device state changed");
    let opts = type_options(&strings(&["rule_fired", "custom", "rule_fired"]));
    assert_eq!(opts, vec![("custom".to_string(), "custom".to_string()), ("rule_fired".to_string(), "rule fired".to_string())]);
    assert_eq!(replace_text("a-b-a", "a", "xy"), "xy-b-xy");
    assert_eq!(replace_text("aaa", "aa", "b"), "ba");
    let devices = vec![("dev_1".to_string(), "Lamp".to_string()), ("".to_string(), "Nobody".to_string())];
    assert_eq!(log_summary_with_names("dev_1 changed; dev_1 again", &devices), "Lamp changed; Lamp again");
    assert_eq!(pause_label(true, 4), "Resume (4)");
    assert_eq!(pause_label(false, 4), "Pause");
    assert_eq!(toggle_selected_entry(&Some("e1".to_string()), "e1"), None);
    assert_eq!(toggle_selected_entry(&None, "e1"), Some("e1".to_string()));
}

#[test]
fn timestamps_parse_as_rfc3339_or_fall_back() {
    assert!(matches!(event_time("1970-01-01T00:01:00Z"), EventTime::Instant(Moment { secs: 60, nanos: 0 })));
    assert!(matches!(
        event_time("2024-03-01T12:00:00.5+02:00"),
        EventTime::Instant(Moment { secs: 1709287200, nanos: 500_000_000 })
    ));
    assert!(matches!(event_time("yesterday"), EventTime::Text(ref t) if t == "yesterday"));
    match event_time("2024-03-01T12:34:56.789 local") {
        EventTime::Text(t) => assert_eq!(t, "12:34:56"),
        EventTime::Instant(_) => panic!("not RFC 3339"),
    }
    assert!(matches!(event_time("1970-01-01T00:00:10Z"), EventTime::Instant(Moment { secs: 10, nanos: 0 })));
    assert_eq!(time_fallback("no tee here"), "no tee here");
    assert_eq!(time_fallback("xT12"), "12");
}

#[test]
fn fetched_devices_seed_the_list() {
    let mut rows = vec![row("a", "Lamp", None, true, false, None), row("b", "Fan", None, false, false, None)];
    let fetched = vec![row("b", "Fan 2", None, true, false, None), row("c", "Heater", None, true, false, None), row("c", "Heater 2", None, true, false, None)];
    seed_devices(&mut rows, &fetched);
    let names: Vec<&str> = rows.iter().map(|r| r.name.as_str()).collect();
    assert_eq!(names, vec!["Lamp", "Fan 2", "Heater 2"]);
    assert!(rows[1].available);
}
