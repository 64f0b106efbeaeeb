use hc_web_leptos::criteria::{
    build_clause_value, build_condition_value, build_criteria_config, builder_from_criteria, parse_clause_from_value,
    parse_group_from_value, parse_value_text, value_to_text, ClauseEdit, CriteriaBuilderState, CriteriaLogic,
    CriteriaModeConfig, CriteriaOffBehavior, CriteriaSection, CriterionDraft, ValueTextForms,
};
use hc_web_leptos::json::{compact_json, make_array, Json, JsonNumber};
use hc_web_leptos::modes::{
    compare_op_label, condition_summary, criteria_generated_summary, parse_mode_id_input, short_json_value,
};

fn s(x: &str) -> Json {
    Json::Str(x.to_string())
}

fn n(x: u64) -> Json {
    Json::Number(JsonNumber::PosInt(x))
}

fn obj(entries: Vec<(&str, Json)>) -> Json {
    Json::Object(entries.into_iter().map(|(k, v)| (k.to_string(), v)).collect())
}

fn no_forms() -> ValueTextForms {
    ValueTextForms { float_form: None, json_form: None }
}

fn device_clause(dev: &str, attr: &str, op: &str, value: &str) -> CriterionDraft {
    CriterionDraft::DeviceState {
        device_id: dev.to_string(),
        attribute: attr.to_string(),
        op: op.to_string(),
        value_text: value.to_string(),
    }
}

#[test]
fn mode_ids_are_slugged_and_prefixed() {
    assert_eq!(parse_mode_id_input("  Night Time! "), "mode_night_time");
    assert_eq!(parse_mode_id_input("mode_away"), "mode_away");
    assert_eq!(parse_mode_id_input("Mode--Guest__Room"), "mode_guest_room");
    assert_eq!(parse_mode_id_input("!!!"), "");
    assert_eq!(parse_mode_id_input("   "), "");
}

#[test]
fn slugging_a_mode_id_twice_changes_nothing() {
    for raw in ["Night Time", "__x__", "Café 2", "mode_Vacation"] {
        let once = parse_mode_id_input(raw);
        assert_eq!(parse_mode_id_input(&once), once);
    }
}

#[test]
fn typed_values_take_their_json_form() {
    assert_eq!(compact_json(&parse_value_text(" TRUE ", &no_forms())), "true");
    assert_eq!(compact_json(&parse_value_text("Null", &no_forms())), "null");
    assert_eq!(compact_json(&parse_value_text("-12", &no_forms())), "-12");
    assert_eq!(compact_json(&parse_value_text("12", &no_forms())), "12");
    let float = ValueTextForms { float_form: Some(Json::Number(JsonNumber::Float("21.5".to_string()))), json_form: None };
    assert_eq!(compact_json(&parse_value_text("21.5", &float)), "21.5");
    let arr = ValueTextForms { float_form: None, json_form: Some(make_array(vec![n(1), n(2)])) };
    assert_eq!(compact_json(&parse_value_text("[1,2]", &arr)), "[1,2]");
    assert_eq!(compact_json(&parse_value_text(" on ", &no_forms())), "\"on\"");
    assert_eq!(compact_json(&parse_value_text("[oops", &no_forms())), "\"[oops\"");
}

#[test]
fn saved_values_show_as_text() {
    assert_eq!(value_to_text(&s("on")), "on");
    assert_eq!(value_to_text(&Json::Bool(false)), "false");
    assert_eq!(value_to_text(&Json::Null), "null");
    assert_eq!(value_to_text(&n(7)), "7");
    assert_eq!(value_to_text(&make_array(vec![s("a")])), "[\"a\"]");
}

#[test]
fn clause_errors_name_the_missing_field() {
    let e = build_clause_value(&device_clause(" ", "power", "eq", "on"), &no_forms()).unwrap_err();
    assert_eq!(e, "Select a device for each device-state criterion.");
    let e = build_clause_value(&device_clause("lamp", "", "eq", "on"), &no_forms()).unwrap_err();
    assert_eq!(e, "Enter an attribute for each device-state criterion.");
    let e = build_clause_value(&device_clause("lamp", "power", "eq", "  "), &no_forms()).unwrap_err();
    assert_eq!(e, "Enter a value for each device-state criterion.");
    let mode = CriterionDraft::ModeIs { mode_id: "".to_string(), on: true };
    assert_eq!(build_clause_value(&mode, &no_forms()).unwrap_err(), "Select a mode for each mode criterion.");
    assert_eq!(
        build_condition_value(CriteriaLogic::All, &vec![], &vec![]).unwrap_err(),
        "Add at least one criterion."
    );
}

#[test]
fn clause_objects_have_sorted_keys() {
    let v = build_clause_value(&device_clause(" lamp ", " power ", "eq", "on"), &no_forms()).unwrap();
    assert_eq!(
        compact_json(&v),
        "{\"attribute\":\"power\",\"device_id\":\"lamp\",\"op\":\"eq\",\"type\":\"device_state\",\"value\":\"on\"}"
    );
    let mode = CriterionDraft::ModeIs { mode_id: "mode_night".to_string(), on: false };
    assert_eq!(
        compact_json(&build_clause_value(&mode, &no_forms()).unwrap()),
        "{\"mode_id\":\"mode_night\",\"on\":false,\"type\":\"mode_is\"}"
    );
}

#[test]
fn one_clause_saves_bare_and_several_save_as_a_group() {
    let one = vec![device_clause("lamp", "power", "eq", "on")];
    let v = build_condition_value(CriteriaLogic::Any, &one, &vec![no_forms()]).unwrap();
    assert!(compact_json(&v).starts_with("{\"attribute\""));
    let two = vec![device_clause("lamp", "power", "eq", "on"), CriterionDraft::ModeIs { mode_id: "m".to_string(), on: true }];
    let v = build_condition_value(CriteriaLogic::Any, &two, &vec![no_forms(), no_forms()]).unwrap();
    let text = compact_json(&v);
    assert!(text.starts_with("{\"conditions\":[{"));
    assert!(text.ends_with("],\"type\":\"or\"}"));
}

#[test]
fn saved_groups_parse_back_into_clauses() {
    let group = obj(vec![
        ("type", s("or")),
        (
            "conditions",
            make_array(vec![
                obj(vec![("type", s("device_state")), ("device_id", s("d1")), ("attribute", s("temp")), ("value", n(20))]),
                obj(vec![("type", s("mode_is")), ("mode_id", s("mode_x"))]),
            ]),
        ),
    ]);
    let (logic, clauses) = parse_group_from_value(&group).unwrap();
    assert_eq!(logic, CriteriaLogic::Any);
    assert_eq!(clauses.len(), 2);
    match &clauses[0] {
        CriterionDraft::DeviceState { device_id, attribute, op, value_text } => {
            assert_eq!(device_id, "d1");
            assert_eq!(attribute, "temp");
            assert_eq!(op, "eq");
            assert_eq!(value_text, "20");
        },
        _ => panic!("expected a device clause"),
    }
    match &clauses[1] {
        CriterionDraft::ModeIs { mode_id, on } => {
            assert_eq!(mode_id, "mode_x");
            assert!(*on);
        },
        _ => panic!("expected a mode clause"),
    }
}

#[test]
fn unsupported_criteria_are_refused_for_inline_editing() {
    assert_eq!(parse_clause_from_value(&n(3)).unwrap_err(), "Criteria clause must be an object.");
    assert_eq!(parse_clause_from_value(&obj(vec![])).unwrap_err(), "Criterion type is required.");
    assert_eq!(
        parse_clause_from_value(&obj(vec![("type", s("time_window"))])).unwrap_err(),
        "Unsupported criterion type 'time_window' for inline editing."
    );
    assert_eq!(
        parse_group_from_value(&obj(vec![("type", s("and")), ("conditions", make_array(vec![]))])).unwrap_err(),
        "Criteria group cannot be empty."
    );
    assert_eq!(
        parse_group_from_value(&obj(vec![("type", s("and"))])).unwrap_err(),
        "Grouped criteria must contain a conditions array."
    );
    assert_eq!(
        parse_group_from_value(&obj(vec![("type", s("not"))])).unwrap_err(),
        "Unsupported grouped criteria type 'not' for inline editing."
    );
}

#[test]
fn builder_roundtrip_keeps_the_condition() {
    let on = obj(vec![
        ("attribute", s("power")),
        ("device_id", s("lamp")),
        ("op", s("eq")),
        ("type", s("device_state")),
        ("value", s("on")),
    ]);
    let cfg = CriteriaModeConfig {
        on_condition: on,
        off_behavior: CriteriaOffBehavior::Inverse,
        off_condition: None,
        reevaluate_every_n_minutes: 0,
    };
    let b = builder_from_criteria(&cfg).unwrap();
    assert_eq!(b.reevaluate_every_n_minutes, 1);
    assert_eq!(b.off_clauses.len(), 1);
    let saved = build_criteria_config(&b, &vec![no_forms()], &vec![no_forms()]).unwrap();
    assert_eq!(compact_json(&saved.on_condition), compact_json(&cfg.on_condition));
    assert!(saved.off_condition.is_none());
    assert_eq!(saved.reevaluate_every_n_minutes, 1);
    let explicit = CriteriaModeConfig {
        on_condition: obj(vec![("type", s("mode_is")), ("mode_id", s("m"))]),
        off_behavior: CriteriaOffBehavior::Explicit,
        off_condition: None,
        reevaluate_every_n_minutes: 5,
    };
    assert_eq!(builder_from_criteria(&explicit).err().unwrap(), "Explicit off criteria is missing.");
}

#[test]
fn builder_edits() {
    let mut b = CriteriaBuilderState::new_default();
    assert_eq!(b.on_clauses.len(), 1);
    b.add_clause(CriteriaSection::On, true);
    assert_eq!(b.on_clauses.len(), 2);
    b.set_clause_logic(CriteriaSection::On, CriteriaLogic::Any);
    assert_eq!(b.clause_logic(CriteriaSection::On), CriteriaLogic::Any);
    b.remove_clause(CriteriaSection::On, 0);
    assert_eq!(b.on_clauses.len(), 1);
    b.remove_clause(CriteriaSection::On, 0);
    assert_eq!(b.on_clauses.len(), 1);
    b.set_off_behavior("explicit");
    assert_eq!(b.off_behavior, CriteriaOffBehavior::Explicit);
    b.set_off_behavior("anything else");
    assert_eq!(b.off_behavior, CriteriaOffBehavior::Inverse);
    b.set_reevaluate_minutes("15");
    assert_eq!(b.reevaluate_every_n_minutes, 15);
    b.set_reevaluate_minutes("0");
    assert_eq!(b.reevaluate_every_n_minutes, 1);
    b.set_clause_kind(CriteriaSection::Off, 0, "mode_is");
    assert!(matches!(b.clause_list(CriteriaSection::Off)[0], CriterionDraft::ModeIs { .. }));
    b.edit_clause(CriteriaSection::Off, 0, &ClauseEdit::ModeOn(false));
    match &b.off_clauses[0] {
        CriterionDraft::ModeIs { on, .. } => assert!(!*on),
        _ => panic!("expected a mode clause"),
    }
}

#[test]
fn summaries_read_like_sentences() {
    let dl = vec![("lamp".to_string(), "Desk Lamp".to_string())];
    let ml = vec![("mode_night".to_string(), "Night".to_string())];
    let c = obj(vec![
        ("type", s("and")),
        (
            "conditions",
            make_array(vec![
                obj(vec![("type", s("device_state")), ("device_id", s("lamp")), ("attribute", s("power")), ("op", s("ne")), ("value", s("on"))]),
                obj(vec![("type", s("mode_is")), ("mode_id", s("mode_night")), ("on", Json::Bool(true))]),
            ]),
        ),
    ]);
    assert_eq!(condition_summary(&c, &dl, &ml), "Desk Lamp power != on and Night is on");
    let not = obj(vec![("type", s("not")), ("condition", obj(vec![("type", s("mode_is")), ("mode_id", s("m2"))]))]);
    assert_eq!(condition_summary(&not, &dl, &ml), "not (m2 is off)");
    let empty = obj(vec![("type", s("or")), ("conditions", make_array(vec![]))]);
    assert_eq!(condition_summary(&empty, &dl, &ml), "No criteria");
    let tw = obj(vec![("type", s("time_window")), ("start", s("08:00"))]);
    assert_eq!(condition_summary(&tw, &dl, &ml), "time between 08:00 and ?");
    assert_eq!(compare_op_label("gte"), ">=");
    assert_eq!(compare_op_label("between"), "?");
    assert_eq!(short_json_value(&s("x")), "x");
    assert_eq!(short_json_value(&n(4)), "4");
}

#[test]
fn generated_rule_counts_in_words() {
    assert_eq!(criteria_generated_summary(0), "No generated rules");
    assert_eq!(criteria_generated_summary(1), "1 generated rule");
    assert_eq!(criteria_generated_summary(12), "12 generated rules");
}

#[test]
fn built_conditions_parse_back_to_the_same_clauses() {
    let drafts = vec![
        device_clause(" lamp ", "power", "ne", "off"),
        CriterionDraft::ModeIs { mode_id: "mode_night".to_string(), on: false },
    ];
    let saved = build_condition_value(CriteriaLogic::All, &drafts, &vec![no_forms(), no_forms()]).unwrap();
    let (logic, back) = parse_group_from_value(&saved).unwrap();
    assert_eq!(logic, CriteriaLogic::All);
    match &back[0] {
        CriterionDraft::DeviceState { device_id, attribute, op, value_text } => {
            assert_eq!((device_id.as_str(), attribute.as_str(), op.as_str(), value_text.as_str()), ("lamp", "power", "ne", "off"));
        },
        _ => panic!("expected a device clause"),
    }
    assert!(matches!(&back[1], CriterionDraft::ModeIs { mode_id, on: false } if mode_id == "mode_night"));
}
