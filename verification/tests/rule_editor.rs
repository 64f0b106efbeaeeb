use hc_web_leptos::json::{make_array, Json, JsonNumber};
use hc_web_leptos::mode_list::Moment;
use hc_web_leptos::rule_editor::{
    availability_target, bool_labels, commit_tag, condition_value, default_rule_meta, fire_entry,
    format_relative_age, group_condition_labels, match_value, mode_target, move_down, move_up, rule_picker_value,
    optional_rule_ref, optional_text, parse_blank_u64, parse_id_list, parse_opt_u64, relative_age_text, remove_at,
    remove_tag, rule_ref, run_mode_from_str, run_mode_help, run_mode_key, save_status, set_priority, set_queue_size,
    test_condition_row, test_summary, toggle_day, validate_for_save, EditorState, RunMode, SaveAction,
};
use hc_web_leptos::rule_options::{
    change_kind_name, compare_op_name, log_level_name, parse_change_kind, parse_compare_op, parse_log_level,
    parse_periodic_unit, parse_variable_op, periodic_unit_name, variable_op_name, ChangeKind, CompareOp, LogLevel,
    PeriodicUnit, VariableOp,
};
use hc_web_leptos::rule_pickers::{
    add_watched, device_select_options, orphan_option, rule_choice_label, sorted_attribute_names, store_devices,
    value_input, watched_devices, ValueInput,
};

fn s(x: &str) -> Json {
    Json::Str(x.to_string())
}

fn n(x: u64) -> Json {
    Json::Number(JsonNumber::PosInt(x))
}

fn obj(entries: Vec<(&str, Json)>) -> Json {
    Json::Object(entries.into_iter().map(|(k, v)| (k.to_string(), v)).collect())
}

fn strings(v: &[&str]) -> Vec<String> {
    v.iter().map(|x| x.to_string()).collect()
}

fn at(secs: i64) -> Moment {
    Moment { secs, nanos: 0 }
}

#[test]
fn run_modes_roundtrip_through_their_keys() {
    for m in [RunMode::Parallel, RunMode::Single, RunMode::Restart, RunMode::Queued { max_queue: 10 }] {
        assert_eq!(run_mode_from_str(run_mode_key(m)), m);
    }
    assert_eq!(run_mode_from_str("bogus"), RunMode::Parallel);
    assert_eq!(run_mode_help(RunMode::Single), "If a previous run is still in progress, this fire is skipped.");
    assert_eq!(set_queue_size(RunMode::Queued { max_queue: 10 }, "3"), RunMode::Queued { max_queue: 3 });
    assert_eq!(set_queue_size(RunMode::Queued { max_queue: 10 }, "0"), RunMode::Queued { max_queue: 1 });
    assert_eq!(set_queue_size(RunMode::Queued { max_queue: 10 }, "x"), RunMode::Queued { max_queue: 10 });
    assert_eq!(set_queue_size(RunMode::Single, "3"), RunMode::Single);
}

#[test]
fn new_rules_start_blank() {
    let m = default_rule_meta();
    assert_eq!(m.name, "");
    assert!(m.enabled);
    assert_eq!(m.priority, 0);
    assert!(m.tags.is_empty());
    assert_eq!(m.run_mode, RunMode::Parallel);
}

#[test]
fn tags_are_trimmed_and_kept_distinct() {
    let mut tags = strings(&["a"]);
    assert!(commit_tag(&mut tags, "  b "));
    assert!(commit_tag(&mut tags, "a"));
    assert!(!commit_tag(&mut tags, "   "));
    assert_eq!(tags, strings(&["a", "b"]));
    remove_tag(&mut tags, 0);
    assert_eq!(tags, strings(&["b"]));
    remove_tag(&mut tags, 5);
    assert_eq!(tags, strings(&["b"]));
}

#[test]
fn meta_fields_parse() {
    assert_eq!(set_priority(3, "-7"), -7);
    assert_eq!(set_priority(3, "abc"), 3);
    assert_eq!(set_priority(3, "99999999999"), 3);
    assert_eq!(parse_opt_u64(" 30 "), Some(30));
    assert_eq!(parse_opt_u64(""), None);
    assert_eq!(parse_blank_u64("30"), Some(30));
    assert_eq!(parse_blank_u64(" 30"), None);
    assert_eq!(optional_text("  "), None);
    assert_eq!(optional_text(" x "), Some(" x ".to_string()));
    assert_eq!(validate_for_save(" n "), Ok(()));
    assert_eq!(validate_for_save("  "), Err("Rule name is required.".to_string()));
}

#[test]
fn moving_up_then_down_restores_the_order() {
    let mut v = vec![1, 2, 3];
    move_up(&mut v, 2);
    assert_eq!(v, vec![1, 3, 2]);
    move_down(&mut v, 1);
    assert_eq!(v, vec![1, 2, 3]);
    move_up(&mut v, 0);
    move_down(&mut v, 2);
    assert_eq!(v, vec![1, 2, 3]);
    remove_at(&mut v, 1);
    assert_eq!(v, vec![1, 3]);
}

#[test]
fn typed_values_and_targets() {
    assert!(match_value("  ", None).is_none());
    assert!(matches!(match_value("on", None), Some(Json::Str(ref t)) if t == "on"));
    assert!(matches!(match_value("5", Some(n(5))), Some(Json::Number(JsonNumber::PosInt(5)))));
    assert!(matches!(condition_value("", None), Json::Bool(true)));
    assert!(matches!(condition_value("x", None), Json::Str(_)));
    assert_eq!(availability_target("online"), Some(true));
    assert_eq!(availability_target("any"), None);
    assert_eq!(mode_target("off"), Some(false));
    assert_eq!(parse_id_list(" a, ,b ,, c"), strings(&["a", "b", "c"]));
    assert!(parse_id_list("").is_empty());
}

#[test]
fn days_toggle_once() {
    let mut days: Vec<u8> = vec![1, 3];
    toggle_day(&mut days, 5, true);
    toggle_day(&mut days, 5, true);
    assert_eq!(days, vec![1, 3, 5]);
    toggle_day(&mut days, 1, false);
    assert_eq!(days, vec![3, 5]);
}

#[test]
fn labels_for_booleans_and_groups() {
    assert_eq!(bool_labels("open"), ("Open", "Closed"));
    assert_eq!(bool_labels("leak"), ("Leak detected", "Dry"));
    assert_eq!(group_condition_labels("or"), ("ANY of these must be true (OR)", "cond-group cond-group--or"));
    assert_eq!(group_condition_labels("xor").1, "cond-group cond-group--xor");
}

#[test]
fn save_ages_read_in_the_largest_unit() {
    assert_eq!(relative_age_text(at(1000), at(998)), "saved just now");
    assert_eq!(relative_age_text(at(1000), at(950)), "saved 50s ago");
    assert_eq!(relative_age_text(at(10000), at(10000 - 125)), "saved 2m ago");
    assert_eq!(relative_age_text(at(100000), at(100000 - 7300)), "saved 2h ago");
    assert_eq!(relative_age_text(at(1000000), at(1000000 - 3 * 86400)), "saved 72h ago");
    assert_eq!(relative_age_text(at(1000000), at(1000000 - 86400)), "saved 24h ago");
    assert_eq!(relative_age_text(at(1000000), at(1000000 - 3600)), "saved 1h ago");
    assert_eq!(relative_age_text(at(1000), at(2000)), "saved just now");
    assert_eq!(save_status(true, true, None), "saving…");
    assert_eq!(save_status(false, true, None), "unsaved changes");
    assert_eq!(save_status(false, false, None), "");
    assert!(format_relative_age(at(0)).ends_with("h ago"));
}

#[test]
fn rule_references_are_uuids() {
    assert_eq!(rule_picker_value(Some(0)), "00000000-0000-0000-0000-000000000000");
    assert_eq!(rule_picker_value(Some(0x550e8400e29b41d4a716446655440000)), "550e8400-e29b-41d4-a716-446655440000");
    assert_eq!(rule_picker_value(None), "");
    assert_eq!(rule_ref("550e8400-e29b-41d4-a716-446655440000"), Some(0x550e8400e29b41d4a716446655440000));
    assert_eq!(rule_ref("not-a-uuid"), None);
    assert_eq!(optional_rule_ref(""), None);
    assert_eq!(optional_rule_ref("00000000-0000-0000-0000-000000000001"), Some(1));
}

#[test]
fn rule_test_results() {
    let r = obj(vec![("would_fire", Json::Bool(true)), ("actions", make_array(vec![n(1), n(2)]))]);
    let t = test_summary(&r);
    assert!(t.would_fire);
    assert_eq!(t.text, "Rule WOULD fire");
    assert_eq!(t.suffix, " — 2 action(s)");
    let f = test_summary(&obj(vec![]));
    assert_eq!(f.class, "test-overall--fail");
    assert_eq!(f.suffix, "");
    let c = test_condition_row(&obj(vec![
        ("passed", Json::Bool(false)),
        ("condition", obj(vec![("device_state", obj(vec![]))])),
        ("actual", n(3)),
        ("expected", Json::Null),
    ]));
    assert!(!c.passed);
    assert_eq!(c.cond_type, "device_state");
    assert_eq!(c.actual, "3");
    assert_eq!(c.expected, "");
    assert_eq!(c.icon, "x");
    let e = fire_entry(&obj(vec![("result", s("error")), ("elapsed_ms", n(12))]));
    assert!(e.is_err);
    assert_eq!(e.elapsed_ms, 12);
    assert_eq!(e.actions_run, 0);
    assert!(!fire_entry(&obj(vec![])).is_err);
}

#[test]
fn option_enums_roundtrip() {
    for x in [CompareOp::Eq, CompareOp::Ne, CompareOp::Gt, CompareOp::Gte, CompareOp::Lt, CompareOp::Lte] {
        assert_eq!(parse_compare_op(compare_op_name(x)), x);
    }
    assert_eq!(parse_compare_op("zz"), CompareOp::Eq);
    for x in [PeriodicUnit::Minutes, PeriodicUnit::Hours, PeriodicUnit::Days] {
        assert_eq!(parse_periodic_unit(periodic_unit_name(x)), x);
    }
    for x in [None, Some(ChangeKind::Physical), Some(ChangeKind::Unknown)] {
        assert_eq!(parse_change_kind(change_kind_name(x)), x);
    }
    for x in [None, Some(LogLevel::Warn)] {
        assert_eq!(parse_log_level(log_level_name(x)), x);
    }
    for x in [None, Some(VariableOp::Toggle), Some(VariableOp::Multiply)] {
        assert_eq!(parse_variable_op(variable_op_name(x)), x);
    }
    assert_eq!(variable_op_name(Some(VariableOp::Assign)), "set");
    assert_eq!(parse_variable_op("set"), None);
}

#[test]
fn watched_devices_roundtrip() {
    assert_eq!(watched_devices("a", &strings(&["b", "c"])), strings(&["a", "b", "c"]));
    assert_eq!(watched_devices("b", &strings(&["b", "c"])), strings(&["b", "c"]));
    assert_eq!(watched_devices("a", &vec![]), strings(&["a"]));
    assert!(watched_devices("", &vec![]).is_empty());
    let ids = strings(&["x", "y"]);
    let (main, extra) = store_devices(&ids);
    assert_eq!(watched_devices(&main, &extra), ids);
    let (main, extra) = store_devices(&strings(&["solo"]));
    assert_eq!((main.as_str(), extra.len()), ("solo", 0));
    let mut w = strings(&["x"]);
    add_watched(&mut w, "x");
    add_watched(&mut w, "");
    add_watched(&mut w, "z");
    assert_eq!(w, strings(&["x", "z"]));
}

#[test]
fn picker_helpers() {
    assert_eq!(orphan_option("gone", &strings(&["a"])), Some("gone (unknown)".to_string()));
    assert_eq!(orphan_option("a", &strings(&["a"])), None);
    assert_eq!(orphan_option("", &vec![]), None);
    let attrs = obj(vec![("temp", n(1)), ("on", Json::Bool(true)), ("brightness", n(5))]);
    assert_eq!(sorted_attribute_names(&attrs), strings(&["brightness", "on", "temp"]));
    assert!(sorted_attribute_names(&Json::Null).is_empty());
    let devices = vec![
        ("d2".to_string(), "lamp".to_string(), false),
        ("s1".to_string(), "Evening".to_string(), true),
        ("d1".to_string(), "Fan".to_string(), false),
    ];
    assert_eq!(
        device_select_options(&devices),
        vec![("d1".to_string(), "Fan".to_string()), ("d2".to_string(), "lamp".to_string())]
    );
    assert_eq!(rule_choice_label(""), "(unnamed)");
}

#[test]
fn compared_values_get_a_fitting_input() {
    match value_input("locked", None, &Json::Bool(true)) {
        ValueInput::Boolean { true_label, false_label, current } => {
            assert_eq!((true_label, false_label, current), ("Locked", "Unlocked", "true"));
        },
        _ => panic!("expected a true/false picker"),
    }
    match value_input("", None, &Json::Bool(false)) {
        ValueInput::Boolean { true_label, current, .. } => assert_eq!((true_label, current), ("On", "false")),
        _ => panic!("expected a true/false picker"),
    }
    match value_input("level", Some(&n(3)), &n(40)) {
        ValueInput::Number { text } => assert_eq!(text, "40"),
        _ => panic!("expected a number box"),
    }
    match value_input("mode", Some(&s("auto")), &s("heat")) {
        ValueInput::Text { text } => assert_eq!(text, "heat"),
        _ => panic!("expected a text box"),
    }
    match value_input("mode", None, &Json::Null) {
        ValueInput::Other { text } => assert_eq!(text, ""),
        _ => panic!("expected a free box"),
    }
}

fn editor(rule: &str) -> EditorState<String> {
    EditorState { rule: rule.to_string(), saved_rule: None, loading: true, saving: false, error: None, last_saved: None }
}

#[test]
fn loaded_rule_is_the_saved_copy() {
    let mut e = editor("");
    e.finish_load(Ok("r1".to_string()));
    assert!(!e.loading);
    assert_eq!(e.rule, "r1");
    assert_eq!(e.saved_rule.as_deref(), Some("r1"));
    let mut f = editor("draft");
    f.finish_load(Err("404".to_string()));
    assert_eq!(f.error.as_deref(), Some("Load failed: 404"));
    assert_eq!(f.rule, "draft");
    assert!(f.saved_rule.is_none());
}

#[test]
fn save_needs_a_name() {
    let mut e = editor("r");
    assert!(!e.begin_save("   "));
    assert_eq!(e.error.as_deref(), Some("Rule name is required."));
    assert!(!e.saving);
    assert!(e.begin_save("Porch"));
    assert!(e.saving && e.error.is_none());
}

#[test]
fn save_answers() {
    let mut e = editor("r");
    e.finish_load(Ok("v1".to_string()));
    e.rule = "v2".to_string();
    assert!(e.begin_save("Porch"));
    match e.finish_save(false, Ok(("v2-saved".to_string(), 1))) {
        SaveAction::Toast(t) => assert_eq!(t, "Saved successfully"),
        _ => panic!("expected a notice"),
    }
    assert!(!e.saving);
    assert_eq!(e.rule, "v2-saved");
    assert_eq!(e.saved_rule.as_deref(), Some("v2-saved"));
    assert!(e.last_saved.is_some());
    assert!(e.begin_save("Porch"));
    assert!(matches!(e.finish_save(false, Err("conflict".to_string())), SaveAction::Nothing));
    assert_eq!(e.error.as_deref(), Some("conflict"));
    assert!(!e.saving);
    let mut n = editor("new");
    assert!(n.begin_save("New"));
    match n.finish_save(true, Ok(("new".to_string(), 0x0123456789abcdef0123456789abcdef))) {
        SaveAction::Navigate(href) => assert_eq!(href, "/rules/01234567-89ab-cdef-0123-456789abcdef"),
        _ => panic!("expected navigation"),
    }
    assert!(n.saved_rule.is_none() && n.last_saved.is_none() && !n.saving);
}
