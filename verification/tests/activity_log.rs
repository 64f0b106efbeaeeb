use hc_web_leptos::events::{
    entry_count_line, filtered_entries, follow_live_event, history_entries, normalize_event, normalize_log, severity_class, source_class, ActivityEntry,
    ActivityFilter, ActivityLog, MAX_ENTRIES,
};
use hc_web_leptos::json::{make_array, Json, JsonNumber};

fn s(x: &str) -> Json {
    Json::Str(x.to_string())
}

fn obj(entries: Vec<(&str, Json)>) -> Json {
    Json::Object(entries.into_iter().map(|(k, v)| (k.to_string(), v)).collect())
}

fn entry(id: &str, summary: &str, severity: &str) -> ActivityEntry {
    ActivityEntry {
        id: id.to_string(),
        timestamp: String::new(),
        source: "event".to_string(),
        kind: "custom".to_string(),
        severity: severity.to_string(),
        summary: summary.to_string(),
        device_id: None,
        rule_id: None,
        raw: Json::Null,
    }
}

fn ids(entries: &Vec<ActivityEntry>) -> Vec<String> {
    entries.iter().map(|e| e.id.clone()).collect()
}

fn no_filter() -> ActivityFilter {
    ActivityFilter { search: String::new(), sources: vec![], severities: vec![], types: vec![], ascending: false }
}

#[test]
fn events_become_timeline_rows() {
    let ev = obj(vec![
        ("type", s("device_state_changed")),
        ("device_id", s("lamp1")),
        ("device_name", s("Lamp")),
        ("changed", make_array(vec![s("on"), s("brightness")])),
        ("timestamp", s("2024-01-01T00:00:00Z")),
    ]);
    let e = normalize_event(7, &ev);
    assert_eq!(e.id, "e-7");
    assert_eq!(e.source, "event");
    assert_eq!(e.kind, "device_state_changed");
    assert_eq!(e.severity, "info");
    assert_eq!(e.summary, "Lamp: on, brightness");
    assert_eq!(e.device_id, Some("lamp1".to_string()));
    assert_eq!(e.rule_id, None);
    let fired = obj(vec![
        ("type", s("rule_fired")),
        ("rule_name", s("Porch")),
        ("elapsed_ms", Json::Number(JsonNumber::PosInt(12))),
    ]);
    assert_eq!(normalize_event(1, &fired).summary, "Rule fired: Porch (12ms)");
    let failed = obj(vec![("type", s("action_failed")), ("rule_name", s("R")), ("action_type", s("notify")), ("error", s("boom"))]);
    let f = normalize_event(2, &failed);
    assert_eq!(f.severity, "error");
    assert_eq!(f.summary, "Action failed: R/notify — boom");
    assert_eq!(normalize_event(3, &obj(vec![])).summary, "unknown");
}

#[test]
fn log_lines_become_timeline_rows() {
    let log = obj(vec![
        ("level", s("WARN")),
        ("target", s("hc_core::rules")),
        ("message", s("slow rule")),
        ("fields", obj(vec![("rule_id", s("r9"))])),
    ]);
    let e = normalize_log(4, &log);
    assert_eq!(e.id, "l-4");
    assert_eq!(e.source, "log");
    assert_eq!(e.kind, "hc_core::rules");
    assert_eq!(e.severity, "warn");
    assert_eq!(e.summary, "slow rule");
    assert_eq!(e.rule_id, Some("r9".to_string()));
    assert_eq!(e.device_id, None);
    assert_eq!(normalize_log(5, &obj(vec![])).severity, "info");
}

#[test]
fn classes_for_severity_and_source() {
    assert_eq!(severity_class("error"), "activity-sev--error");
    assert_eq!(severity_class("trace"), "activity-sev--debug");
    assert_eq!(severity_class("other"), "activity-sev--info");
    assert_eq!(source_class("log"), "activity-src--log");
    assert_eq!(source_class("x"), "");
}

#[test]
fn newest_entry_shows_first() {
    let mut log = ActivityLog::new();
    log.add_entry(entry("a", "first", "info"));
    log.add_entry(entry("b", "second", "info"));
    assert_eq!(ids(&log.entries), vec!["b", "a"]);
}

#[test]
fn pausing_holds_entries_back_until_resume() {
    let mut live = ActivityLog::new();
    let mut paused = ActivityLog::new();
    paused.pause();
    for id in ["a", "b", "c"] {
        live.add_entry(entry(id, id, "info"));
        paused.add_entry(entry(id, id, "info"));
    }
    assert!(paused.entries.is_empty());
    assert_eq!(paused.pause_buffer.len(), 3);
    paused.resume();
    assert!(!paused.paused);
    assert!(paused.pause_buffer.is_empty());
    assert_eq!(ids(&paused.entries), ids(&live.entries));
}

#[test]
fn the_timeline_keeps_at_most_the_cap() {
    let mut log = ActivityLog::new();
    for i in 0..(MAX_ENTRIES + 3) {
        log.add_entry(entry(&format!("x{}", i), "s", "info"));
    }
    assert_eq!(log.entries.len(), MAX_ENTRIES);
    assert_eq!(log.entries[0].id, format!("x{}", MAX_ENTRIES + 2));
    log.clear();
    assert!(log.entries.is_empty());
    log.load_history(vec![entry("h1", "s", "info"), entry("h2", "s", "info")]);
    assert_eq!(ids(&log.entries), vec!["h1", "h2"]);
}

#[test]
fn filters_match_search_and_selections() {
    let entries = vec![entry("1", "Kitchen light on", "info"), entry("2", "Garage door", "error"), entry("3", "kitchen fan", "warn")];
    let mut f = no_filter();
    f.search = "KITCHEN".to_string();
    assert_eq!(ids(&filtered_entries(&entries, &f)), vec!["1", "3"]);
    f.ascending = true;
    assert_eq!(ids(&filtered_entries(&entries, &f)), vec!["3", "1"]);
    let mut g = no_filter();
    g.severities = vec!["error".to_string()];
    assert_eq!(ids(&filtered_entries(&entries, &g)), vec!["2"]);
    let mut h = no_filter();
    h.sources = vec!["log".to_string()];
    assert!(filtered_entries(&entries, &h).is_empty());
    assert_eq!(filtered_entries(&entries, &no_filter()).len(), 3);
}

#[test]
fn count_line_reads_shown_of_total() {
    assert_eq!(entry_count_line(3, 3, "live"), "3 entries · Live");
    assert_eq!(entry_count_line(1, 5, "disconnected"), "1 / 5 entries · Disconnected");
    assert_eq!(entry_count_line(0, 0, "connecting"), "0 entries · Connecting");
}

#[test]
fn stored_history_is_numbered_by_seq_or_position() {
    let items = vec![
        obj(vec![("seq", Json::Number(JsonNumber::PosInt(41))), ("event", obj(vec![("type", s("custom")), ("event_type", s("doorbell"))]))]),
        obj(vec![("event", obj(vec![("type", s("system_alert")), ("message", s("disk"))]))]),
        obj(vec![]),
    ];
    let es = history_entries(&items);
    assert_eq!(ids(&es), vec!["e-41", "e-1", "e-2"]);
    assert_eq!(es[0].summary, "Custom: doorbell");
    assert_eq!(es[1].severity, "error");
    assert_eq!(es[2].kind, "unknown");
}

#[test]
fn live_events_join_once() {
    let mut log = ActivityLog::new();
    let mut last = 0u64;
    let ev = obj(vec![("type", s("custom"))]);
    follow_live_event(&mut log, &mut last, 5, &ev);
    follow_live_event(&mut log, &mut last, 5, &ev);
    follow_live_event(&mut log, &mut last, 3, &ev);
    follow_live_event(&mut log, &mut last, 6, &ev);
    assert_eq!(last, 6);
    assert_eq!(ids(&log.entries), vec!["e-6", "e-5"]);
}
