use hc_web_leptos::actions::{json_input_text, FieldUpdate};
use hc_web_leptos::criteria::{value_text_json, value_to_text};
use hc_web_leptos::devices::{load_prefs_text as device_prefs_text, Density};
use hc_web_leptos::drawer::Drawer;
use hc_web_leptos::events::log_line_entry;
use hc_web_leptos::json::{compact_json, number_text, Json, JsonNumber};
use hc_web_leptos::rule_editor::{condition_value_text, json_or_text, match_value_text, optional_json_text};
use hc_web_leptos::rules::{load_prefs_text as rules_prefs_text, RuleSortKey};

#[test]
fn device_prefs_from_stored_text() {
    let p = device_prefs_text(Some("{\"density\":\"compact\",\"page_size\":50,\"search\":\"lamp\"}"));
    assert_eq!(p.density, Density::Compact);
    assert_eq!(p.page_size, 50);
    assert_eq!(p.search, "lamp");
    let bad = device_prefs_text(Some("{not json"));
    assert_eq!(bad.density, Density::Comfortable);
    assert_eq!(bad.page_size, 25);
    assert_eq!(device_prefs_text(None).area_filter, "all");
}

#[test]
fn rules_prefs_from_stored_text() {
    let p = rules_prefs_text(Some("{\"search\":\"porch\",\"tags\":[\"a\",\"b\"],\"sort\":\"priority\",\"sort_dir\":\"desc\"}"));
    assert_eq!(p.search, "porch");
    assert_eq!(p.tags, vec!["a".to_string(), "b".to_string()]);
    assert_eq!(p.sort, RuleSortKey::Priority);
    assert!(p.desc);
    let bad = rules_prefs_text(Some("]["));
    assert_eq!(bad.search, "");
    assert_eq!(bad.sort, RuleSortKey::Name);
    assert!(!rules_prefs_text(None).desc);
}

#[test]
fn raw_json_field_text() {
    match json_input_text("  ") {
        FieldUpdate::Write(v) => assert_eq!(compact_json(&v), "null"),
        FieldUpdate::Keep => panic!("blank text clears the field"),
    }
    match json_input_text("{\"b\":1,\"a\":[true]}") {
        FieldUpdate::Write(v) => assert_eq!(compact_json(&v), "{\"a\":[true],\"b\":1}"),
        FieldUpdate::Keep => panic!("JSON text is written"),
    }
    assert!(matches!(json_input_text("{\"a\":"), FieldUpdate::Keep));
}

#[test]
fn typed_value_text_reads_json() {
    assert_eq!(compact_json(&value_text_json(" [1, 2] ", None)), "[1,2]");
    assert_eq!(compact_json(&value_text_json("[1,", None)), "\"[1,\"");
    assert_eq!(compact_json(&value_text_json("TRUE", None)), "true");
    assert_eq!(compact_json(&value_text_json("-3", None)), "-3");
    let half = Some(Json::Number(JsonNumber::Float("0.5".to_string())));
    assert_eq!(compact_json(&value_text_json("0.5", half)), "0.5");
    assert_eq!(compact_json(&value_text_json("warm", None)), "\"warm\"");
}

#[test]
fn value_text_roundtrip_of_plain_values() {
    for v in [Json::Bool(true), Json::Bool(false), Json::Null, Json::Number(JsonNumber::PosInt(42)), Json::Number(JsonNumber::NegInt(-7))] {
        let t = value_to_text(&v);
        assert_eq!(compact_json(&value_text_json(&t, None)), compact_json(&v));
    }
    assert_eq!(number_text(&JsonNumber::NegInt(-120)), "-120");
}

#[test]
fn rule_editor_value_texts() {
    assert!(match_value_text("   ").is_none());
    assert_eq!(compact_json(&match_value_text("12").unwrap()), "12");
    assert_eq!(compact_json(&match_value_text("on").unwrap()), "\"on\"");
    assert_eq!(compact_json(&condition_value_text("")), "true");
    assert_eq!(compact_json(&condition_value_text("{\"x\":null}")), "{\"x\":null}");
    assert_eq!(compact_json(&json_or_text("nope")), "\"nope\"");
    assert_eq!(compact_json(&json_or_text("\"yes\"")), "\"yes\"");
    assert!(optional_json_text(" ").is_none());
    assert!(optional_json_text("{oops").is_none());
    assert_eq!(compact_json(&optional_json_text("[]").unwrap()), "[]");
}

#[test]
fn log_lines_become_entries() {
    let e = log_line_entry(7, "{\"level\":\"WARN\",\"target\":\"hub\",\"message\":\"slow\",\"fields\":{\"device_id\":\"lamp\"}}").unwrap();
    assert_eq!(e.id, "l-7");
    assert_eq!(e.severity, "warn");
    assert_eq!(e.kind, "hub");
    assert_eq!(e.summary, "slow");
    assert_eq!(e.device_id, Some("lamp".to_string()));
    assert!(log_line_entry(8, "not json").is_none());
}

#[test]
fn drawer_follows_event_text() {
    let mut d = Drawer::new();
    d.apply_event_text("{\"stage\":\"item\",\"op\":\"add\",\"data\":{\"mac\":\"m1\"}}", Some("mac"));
    assert_eq!(d.items.len(), 1);
    d.apply_event_text("", Some("mac"));
    d.apply_event_text("{broken", Some("mac"));
    assert_eq!(d.items.len(), 1);
    d.apply_event_text("{\"stage\":\"item\",\"op\":\"remove\",\"data\":{\"mac\":\"m1\"}}", Some("mac"));
    assert!(d.items.is_empty());
}
