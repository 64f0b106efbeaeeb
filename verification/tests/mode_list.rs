use hc_web_leptos::criteria::{CriteriaBuilderState, CriteriaModeConfig, CriteriaOffBehavior, ValueTextForms};
use hc_web_leptos::json::{compact_json, Json};
use hc_web_leptos::mode_list::{
    active_filter_chips, card_status, create_id_hint, is_builtin_mode, live_mode_state, mode_counts, mode_flavor,
    mode_row, off_summary, offset_text, option_label, options_except, parse_offset_minutes, prepare_new_mode,
    solar_offsets_body, sort_key_from_str, sort_key_to_str, visible_mode_ids, DraftModeKind, ModeDefinition,
    ModeFlavor, ModeLiveState, ModeRecord, Moment, SortKey,
};

fn s(x: &str) -> Json {
    Json::Str(x.to_string())
}

fn obj(entries: Vec<(&str, Json)>) -> Json {
    Json::Object(entries.into_iter().map(|(k, v)| (k.to_string(), v)).collect())
}

fn record(id: &str, name: &str, solar: bool, criteria: Option<Json>, state: Option<ModeLiveState>) -> ModeRecord {
    ModeRecord {
        id: id.to_string(),
        name: name.to_string(),
        is_solar: solar,
        on_offset_minutes: 0,
        off_offset_minutes: 0,
        definition: criteria.map(|c| ModeDefinition {
            criteria: CriteriaModeConfig {
                on_condition: c,
                off_behavior: CriteriaOffBehavior::Inverse,
                off_condition: None,
                reevaluate_every_n_minutes: 1,
            },
            generated_rule_count: 2,
        }),
        state,
    }
}

fn live(on: bool, available: bool, secs: Option<i64>) -> ModeLiveState {
    ModeLiveState { is_on: on, available, last_change: secs.map(|s| Moment { secs: s, nanos: 0 }) }
}

#[test]
fn sort_keys_roundtrip_through_storage() {
    for k in [SortKey::Name, SortKey::Type, SortKey::Status, SortKey::LastSeen] {
        assert_eq!(sort_key_from_str(Some(sort_key_to_str(k))), k);
    }
    assert_eq!(sort_key_from_str(Some("bogus")), SortKey::Name);
    assert_eq!(sort_key_from_str(None), SortKey::Name);
}

#[test]
fn flavours_and_builtins() {
    assert!(is_builtin_mode("mode_day"));
    assert!(is_builtin_mode("mode_night"));
    assert!(!is_builtin_mode("mode_away"));
    assert_eq!(mode_flavor(&record("a", "A", true, None, None)), ModeFlavor::Solar);
    assert_eq!(mode_flavor(&record("a", "A", false, Some(Json::Null), None)), ModeFlavor::Criteria);
    assert_eq!(mode_flavor(&record("a", "A", false, None, None)), ModeFlavor::Manual);
    assert_eq!(ModeFlavor::Criteria.label(), "Criteria");
    assert_eq!(ModeFlavor::Solar.card_class(), "mode-card--solar");
}

#[test]
fn live_state_prefers_the_device_list() {
    let rec = record("mode_x", "X", false, None, Some(live(false, true, None)));
    let devices = vec![("mode_y".to_string(), live(true, true, None)), ("mode_x".to_string(), live(true, false, Some(5)))];
    assert_eq!(live_mode_state(&rec, &devices), Some(live(true, false, Some(5))));
    assert_eq!(live_mode_state(&rec, &vec![]), Some(live(false, true, None)));
    assert_eq!(live_mode_state(&record("m", "M", false, None, None), &vec![]), None);
}

#[test]
fn rows_carry_search_text_and_state() {
    let crit = obj(vec![("type", s("mode_is")), ("mode_id", s("mode_away")), ("on", Json::Bool(true))]);
    let rec = record("mode_day", "Day Time", false, Some(crit), None);
    let row = mode_row(&rec, &vec![], "day time");
    assert_eq!(row.search_text, "day time mode_day criteria built in mode_away is on");
    assert!(row.built_in);
    assert!(!row.is_on);
    assert!(row.available);
    assert_eq!(row.flavor, ModeFlavor::Criteria);
}

#[test]
fn visible_modes_filter_and_sort() {
    let rows = vec![
        mode_row(&record("mode_b", "Bravo", false, None, Some(live(true, true, Some(10)))), &vec![], "bravo"),
        mode_row(&record("mode_a", "Alpha", true, None, Some(live(false, true, None))), &vec![], "alpha"),
        mode_row(&record("mode_c", "Charlie", false, None, Some(live(true, true, Some(5)))), &vec![], "charlie"),
    ];
    let none: Vec<String> = vec![];
    assert_eq!(visible_mode_ids(&rows, "", &none, &none, SortKey::Name, false), vec!["mode_a", "mode_b", "mode_c"]);
    assert_eq!(visible_mode_ids(&rows, "", &none, &none, SortKey::Name, true), vec!["mode_c", "mode_b", "mode_a"]);
    assert_eq!(visible_mode_ids(&rows, "", &none, &none, SortKey::Status, false), vec!["mode_b", "mode_c", "mode_a"]);
    assert_eq!(visible_mode_ids(&rows, "", &none, &none, SortKey::LastSeen, false), vec!["mode_a", "mode_c", "mode_b"]);
    let on = vec!["On".to_string()];
    assert_eq!(visible_mode_ids(&rows, "", &on, &none, SortKey::Name, false), vec!["mode_b", "mode_c"]);
    let solar = vec!["Solar".to_string()];
    assert_eq!(visible_mode_ids(&rows, "", &none, &solar, SortKey::Name, false), vec!["mode_a"]);
    assert_eq!(visible_mode_ids(&rows, "  CHAR ", &none, &none, SortKey::Name, false), vec!["mode_c"]);
    assert_eq!(mode_counts(&rows), (2, 0, 0));
}

#[test]
fn filter_chips_name_each_active_filter() {
    let status = vec!["On".to_string(), "Off".to_string()];
    assert_eq!(
        active_filter_chips(&status, &vec![], "  lamp "),
        vec!["Status: On, Off".to_string(), "Search: lamp".to_string()]
    );
    assert!(active_filter_chips(&vec![], &vec![], "   ").is_empty());
}

#[test]
fn new_modes_are_checked_before_creation() {
    let b = CriteriaBuilderState::new_default();
    let forms = vec![ValueTextForms { float_form: None, json_form: None }];
    let e = prepare_new_mode("  ", "x", DraftModeKind::Manual, &b, &forms, &forms).err().unwrap();
    assert_eq!(e, "Mode name is required.");
    let e = prepare_new_mode("Guest", "???", DraftModeKind::Manual, &b, &forms, &forms).err().unwrap();
    assert_eq!(e, "Mode id is required.");
    let m = prepare_new_mode(" Guest ", "Guest Room", DraftModeKind::Manual, &b, &forms, &forms).ok().unwrap();
    assert_eq!(m.id, "mode_guest_room");
    assert_eq!(m.name, "Guest");
    assert!(m.criteria.is_none());
    let e = prepare_new_mode("Guest", "guest", DraftModeKind::Criteria, &b, &forms, &forms).err().unwrap();
    assert_eq!(e, "Select a device for each device-state criterion.");
    assert_eq!(create_id_hint("Guest Room"), "Will create mode_guest_room");
    assert_eq!(create_id_hint(""), "Mode ids are normalized to the required mode_ prefix.");
}

#[test]
fn card_status_puts_offline_first() {
    assert_eq!(card_status(None), ("card-state-badge card-state-badge--tone-tone-idle", "Off"));
    assert_eq!(card_status(Some(live(true, true, None))).1, "On");
    assert_eq!(card_status(Some(live(true, false, None))).1, "Offline");
}

#[test]
fn off_summary_negates_or_shows_explicit() {
    let on = obj(vec![("type", s("mode_is")), ("mode_id", s("mode_x")), ("on", Json::Bool(true))]);
    let inverse = CriteriaModeConfig {
        on_condition: on,
        off_behavior: CriteriaOffBehavior::Inverse,
        off_condition: None,
        reevaluate_every_n_minutes: 1,
    };
    assert_eq!(off_summary(&inverse, &vec![], &vec![]), "Not (mode_x is on)");
    let explicit = CriteriaModeConfig { off_behavior: CriteriaOffBehavior::Explicit, ..inverse };
    assert_eq!(off_summary(&explicit, &vec![], &vec![]), "Explicit off criteria missing");
}

#[test]
fn solar_offsets() {
    assert_eq!(parse_offset_minutes("-30"), -30);
    assert_eq!(parse_offset_minutes("abc"), 0);
    assert_eq!(parse_offset_minutes("3000000000"), 0);
    assert_eq!(compact_json(&solar_offsets_body(-15, 20)), "{\"off_offset_minutes\":20,\"on_offset_minutes\":-15}");
    assert_eq!(offset_text(-5), "Offset -5 min");
    assert_eq!(option_label("Night", "mode_night"), "Night · mode_night");
    let opts = vec![("a".to_string(), "A".to_string()), ("b".to_string(), "B".to_string())];
    assert_eq!(options_except(&opts, "a"), vec![("b".to_string(), "B".to_string())]);
}
