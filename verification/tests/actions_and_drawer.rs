use hc_web_leptos::actions::{
    action_click, button_label, field_label, initial_form_state, integer_field_update, json_field_update,
    number_field_update, param_from, parse_params, text_field_update, ActionClick, FieldUpdate, FormState,
};
use hc_web_leptos::drawer::{
    apply_item, item_id, item_status_class, item_title, progress_percent, progress_width, start_outcome,
    terminal_class, terminal_stage, warning_message, Drawer, StartOutcome,
};
use hc_web_leptos::json::{compact_json, make_array, Json, JsonNumber};

fn s(x: &str) -> Json {
    Json::Str(x.to_string())
}

fn n(x: u64) -> Json {
    Json::Number(JsonNumber::PosInt(x))
}

fn obj(entries: Vec<(&str, Json)>) -> Json {
    Json::Object(entries.into_iter().map(|(k, v)| (k.to_string(), v)).collect())
}

fn body(f: &FormState) -> String {
    compact_json(&f.to_body())
}

fn texts(items: &Vec<Json>) -> Vec<String> {
    items.iter().map(compact_json).collect()
}

#[test]
fn schema_entries_become_fields_sorted_by_name() {
    let schema = obj(vec![
        ("zeta", obj(vec![("type", s("integer")), ("default", n(3)), ("minimum", n(1)), ("maximum", s("x"))])),
        ("alpha", obj(vec![("required", Json::Bool(true)), ("description", s("first")), ("enum", make_array(vec![s("a"), s("b")]))])),
    ]);
    let defs = parse_params(Some(&schema));
    assert_eq!(defs.len(), 2);
    assert_eq!(defs[0].name, "alpha");
    assert_eq!(defs[0].ty, "string");
    assert!(defs[0].required);
    assert_eq!(defs[0].description, Some("first".to_string()));
    assert_eq!(defs[0].enum_values.as_ref().map(|v| v.len()), Some(2));
    assert_eq!(defs[1].name, "zeta");
    assert_eq!(defs[1].ty, "integer");
    assert_eq!(defs[1].minimum.as_ref().map(compact_json), Some("1".to_string()));
    assert!(defs[1].maximum.is_none());
    assert_eq!(field_label(&defs[0]), "alpha *");
    assert_eq!(field_label(&defs[1]), "zeta");
    assert!(parse_params(None).is_empty());
    assert!(parse_params(Some(&s("nope"))).is_empty());
    assert_eq!(param_from("p", &obj(vec![])).ty, "string");
}

#[test]
fn forms_start_from_defaults() {
    let schema = obj(vec![("b", obj(vec![("default", s("x"))])), ("a", obj(vec![("default", n(1))])), ("c", obj(vec![]))]);
    let defs = parse_params(Some(&schema));
    let form = initial_form_state(&defs);
    assert_eq!(body(&form), "{\"a\":1,\"b\":\"x\"}");
}

#[test]
fn a_field_reads_back_what_was_written() {
    let mut form = FormState::new();
    form.set_field("name", s("lamp"));
    form.set_field("level", n(3));
    form.set_field("name", s("fan"));
    assert_eq!(form.get("name").map(|v| compact_json(&v)), Some("\"fan\"".to_string()));
    assert_eq!(form.get("level").map(|v| compact_json(&v)), Some("3".to_string()));
    assert_eq!(body(&form), "{\"level\":3,\"name\":\"fan\"}");
    form.set_field("level", Json::Null);
    assert!(form.get("level").is_none());
    form.remove("name");
    assert_eq!(body(&form), "{}");
}

#[test]
fn field_inputs_write_clear_or_keep() {
    assert!(matches!(integer_field_update(""), FieldUpdate::Write(Json::Null)));
    assert!(matches!(integer_field_update("-4"), FieldUpdate::Write(Json::Number(JsonNumber::NegInt(-4)))));
    assert!(matches!(integer_field_update("4.5"), FieldUpdate::Keep));
    assert!(matches!(number_field_update("abc", None), FieldUpdate::Keep));
    assert!(matches!(number_field_update("", Some(n(1))), FieldUpdate::Write(Json::Null)));
    assert!(matches!(text_field_update("hi"), FieldUpdate::Write(Json::Str(_))));
    assert!(matches!(json_field_update("   ", None), FieldUpdate::Write(Json::Null)));
    assert!(matches!(json_field_update("{", None), FieldUpdate::Keep));
    let mut form = FormState::new();
    form.apply("n", integer_field_update("12"));
    form.apply("n", integer_field_update("x"));
    assert_eq!(body(&form), "{\"n\":12}");
    form.apply("n", text_field_update(""));
    assert_eq!(body(&form), "{}");
}

#[test]
fn action_buttons() {
    assert_eq!(action_click(true, true), ActionClick::OpenDrawer);
    assert_eq!(action_click(false, true), ActionClick::ToggleForm);
    assert_eq!(action_click(false, false), ActionClick::Submit);
    assert_eq!(button_label(true, false, false, false), "Running…");
    assert_eq!(button_label(false, false, true, true), "Hide");
    assert_eq!(button_label(false, false, true, false), "Configure…");
    assert_eq!(button_label(false, true, true, false), "Run");
}

#[test]
fn item_events_edit_the_list_by_key() {
    let mut items: Vec<Json> = vec![];
    apply_item(&mut items, "add", obj(vec![("id", s("a")), ("v", n(1))]), "id");
    apply_item(&mut items, "add", obj(vec![("id", s("b")), ("v", n(2))]), "id");
    apply_item(&mut items, "update", obj(vec![("id", s("a")), ("v", n(9))]), "id");
    assert_eq!(texts(&items), vec!["{\"id\":\"a\",\"v\":9}", "{\"id\":\"b\",\"v\":2}"]);
    apply_item(&mut items, "add", obj(vec![("id", s("a")), ("v", n(9))]), "id");
    assert_eq!(items.len(), 2);
    apply_item(&mut items, "remove", obj(vec![("id", s("a"))]), "id");
    assert_eq!(texts(&items), vec!["{\"id\":\"b\",\"v\":2}"]);
    apply_item(&mut items, "remove", obj(vec![("id", s("a"))]), "id");
    assert_eq!(items.len(), 1);
    apply_item(&mut items, "shuffle", obj(vec![("id", s("z"))]), "id");
    assert_eq!(items.len(), 1);
    apply_item(&mut items, "add", obj(vec![("v", n(5))]), "id");
    apply_item(&mut items, "add", obj(vec![("v", n(5))]), "id");
    assert_eq!(items.len(), 3);
}

#[test]
fn drawer_follows_a_run() {
    let mut d = Drawer::new();
    d.begin_start();
    assert!(d.starting && d.started);
    let ok: Result<Json, String> = Ok(obj(vec![("request_id", s("r1"))]));
    assert_eq!(d.finish_start(&ok), None);
    assert_eq!(d.request_id, Some("r1".to_string()));
    assert!(!d.starting);
    d.stream_opened();
    d.apply_event(obj(vec![("stage", s("progress")), ("percent", n(40))]), None);
    assert_eq!(progress_percent(d.last_progress.as_ref().unwrap()), Some(40));
    d.apply_event(obj(vec![("stage", s("item")), ("op", s("add")), ("data", obj(vec![("mac", s("m1"))]))]), Some("mac"));
    assert_eq!(d.items.len(), 1);
    d.apply_event(obj(vec![("stage", s("warning")), ("message", s("slow"))]), None);
    assert_eq!(warning_message(&d.warnings[0]), "slow");
    d.apply_event(obj(vec![("stage", s("awaiting_user")), ("prompt", s("pin?"))]), None);
    assert!(d.pending_prompt.is_some());
    d.respond_state.set_field("pin", s("1234"));
    assert_eq!(
        compact_json(&d.respond_body().unwrap()),
        "{\"response\":{\"pin\":\"1234\"},\"target_request_id\":\"r1\"}"
    );
    d.responded();
    assert!(d.pending_prompt.is_none());
    assert_eq!(compact_json(&d.cancel_body().unwrap()), "{\"target_request_id\":\"r1\"}");
    d.apply_event(obj(vec![("stage", s("complete"))]), None);
    assert!(!d.stream_open);
    assert_eq!(terminal_class(d.terminal.as_ref().unwrap()), "action-drawer__terminal action-drawer__terminal--ok");
    assert_eq!(d.items.len(), 1);
    d.close();
    assert!(d.request_id.is_none() && d.items.is_empty() && d.terminal.is_none() && !d.started);
    assert!(d.cancel_body().is_none());
}

#[test]
fn start_failures_explain_themselves() {
    let busy: Result<Json, String> = Ok(obj(vec![("status", s("busy")), ("active_request_id", s("r0"))]));
    assert!(matches!(start_outcome(&busy), StartOutcome::Busy(ref r) if r == "r0"));
    let mut d = Drawer::new();
    d.begin_start();
    assert_eq!(
        d.finish_start(&busy),
        Some("another invocation is already running (request_id r0); wait for it to finish or cancel it first".to_string())
    );
    assert!(!d.started);
    let none: Result<Json, String> = Ok(obj(vec![]));
    assert_eq!(d.finish_start(&none), Some("plugin did not return request_id".to_string()));
    let err: Result<Json, String> = Err("503".to_string());
    assert_eq!(d.finish_start(&err), Some("start failed: 503".to_string()));
    assert_eq!(d.stream_failed("gone"), "failed to open stream: gone");
}

#[test]
fn drawer_display_helpers() {
    assert!(terminal_stage("timeout"));
    assert!(!terminal_stage("progress"));
    assert_eq!(progress_width(Some(7)), "7%");
    assert_eq!(progress_width(None), "0%");
    assert_eq!(progress_percent(&obj(vec![("percent", n(300))])), Some(44));
    assert_eq!(terminal_class(&obj(vec![("stage", s("error"))])), "action-drawer__terminal action-drawer__terminal--err");
    assert_eq!(item_id(&obj(vec![("id", n(5))]), "id"), "5");
    assert_eq!(item_id(&obj(vec![("id", s("x"))]), "id"), "x");
    assert_eq!(item_id(&obj(vec![]), "id"), "");
    assert_eq!(item_title(&obj(vec![("name", s("N")), ("manufacturer", s("M"))])), Some("N".to_string()));
    assert_eq!(item_title(&obj(vec![])), None);
    assert_eq!(
        item_status_class(&obj(vec![("status", s("In Progress!"))])),
        "action-drawer__item-status action-drawer__item-status--in_progress_"
    );
    assert_eq!(item_status_class(&obj(vec![])), "action-drawer__item-status");
}
