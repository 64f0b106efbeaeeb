use hc_web_leptos::glue::{
    can_create, command_body, command_with_text, compute_remaining, counter_step, create_body, cut_text_30,
    device_type_str, device_value_summary, glue_count, glue_list, glue_type_options, is_glue_device, rename_body,
    select_options, summary_defined, text_cut_ok, timer_start_body, type_icon, type_label, GlueDevice,
};
use hc_web_leptos::json::{compact_json, make_array, Json, JsonNumber};
use hc_web_leptos::plugins::{
    can_create_thermostat, config_body, heartbeat_ago, config_error_message, current_log_level, heartbeat_text, log_level_body,
    log_level_note, log_levels, plugin_controls, plugin_list, plugins_heading, sort_options_by_label,
    status_dot_class, status_label, str_contains, therm_actuator_candidates, therm_sensor_candidates, toggle_sensor,
    thermostat_body, toggle_status, type_label as plugin_type_label, PluginRow, ThermostatDraft, WizardDevice,
};
use hc_web_leptos::mode_list::Moment;
use hc_web_leptos::text::chars_of;

fn string_of(v: &Vec<char>) -> String {
    v.iter().collect()
}

fn s(x: &str) -> Json {
    Json::Str(x.to_string())
}

fn n(x: u64) -> Json {
    Json::Number(JsonNumber::PosInt(x))
}

fn obj(entries: Vec<(&str, Json)>) -> Json {
    Json::Object(entries.into_iter().map(|(k, v)| (k.to_string(), v)).collect())
}

fn device(t: &str, attrs: Json) -> Json {
    obj(vec![("device_type", s(t)), ("attributes", attrs)])
}

fn glue(id: &str, name: &str, t: Option<&str>, plugin: &str) -> GlueDevice {
    GlueDevice {
        device_id: id.to_string(),
        name: name.to_string(),
        device_type: t.map(|x| x.to_string()),
        available: true,
        plugin_id: plugin.to_string(),
        attributes: Json::Null,
    }
}

fn plugin(id: &str, name: &str, status: &str) -> PluginRow {
    PluginRow { plugin_id: id.to_string(), display_name: name.to_string(), status: status.to_string() }
}

#[test]
fn glue_types_have_labels_and_icons() {
    assert_eq!(type_label("number"), "Input Number");
    assert_eq!(type_label("mystery"), "mystery");
    assert_eq!(type_icon("virtual_switch"), "toggle-right");
    assert_eq!(type_icon("mystery"), "puzzle-piece");
    let opts = glue_type_options();
    assert_eq!(opts.len(), 11);
    assert_eq!(opts[0], ("switch".to_string(), "Switch — On/off toggle for automation flags".to_string()));
    assert_eq!(device_type_str(&obj(vec![])), "unknown");
    assert!(is_glue_device("core.timer"));
    assert!(!is_glue_device("zigbee"));
}

#[test]
fn timers_count_down_from_their_start() {
    let attrs = obj(vec![("duration_secs", n(300)), ("remaining_secs", n(42)), ("started_at", s("2024-01-01T00:00:00Z"))]);
    assert_eq!(compute_remaining(&attrs, Some(100)), 200);
    assert_eq!(compute_remaining(&attrs, Some(400)), 0);
    assert_eq!(compute_remaining(&attrs, None), 42);
    let idle = obj(vec![("duration_secs", n(300)), ("remaining_secs", n(42))]);
    assert_eq!(compute_remaining(&idle, Some(100)), 42);
}

#[test]
fn value_summaries_by_type() {
    let d = device("counter", obj(vec![("count", Json::Number(JsonNumber::NegInt(-3)))]));
    assert_eq!(device_value_summary(&d, "0", None), "count: -3");
    let d = device("number", obj(vec![("unit", s("°C"))]));
    assert_eq!(device_value_summary(&d, "21.5", None), "21.5°C");
    let d = device("group", obj(vec![("active_count", n(2)), ("member_count", n(5)), ("on", Json::Bool(true))]));
    assert_eq!(device_value_summary(&d, "0", None), "2/5 ON");
    let running = obj(vec![("state", s("running")), ("duration_secs", n(300)), ("started_at", s("t"))]);
    assert_eq!(device_value_summary(&device("timer", running), "0", Some(235)), "running (1:05)");
    assert_eq!(device_value_summary(&device("timer", obj(vec![])), "0", None), "idle");
    assert_eq!(device_value_summary(&device("switch", obj(vec![("on", Json::Bool(true))])), "0", None), "ON");
    assert_eq!(device_value_summary(&device("select", obj(vec![])), "0", None), "—");
    assert_eq!(device_value_summary(&device("widget", obj(vec![])), "0", None), "—");
}

#[test]
fn long_texts_are_cut_at_thirty_bytes() {
    let long = "abcdefghijklmnopqrstuvwxyz0123456789";
    let d = device("text", obj(vec![("value", s(long))]));
    assert!(summary_defined(&d));
    assert_eq!(device_value_summary(&d, "0", None), "abcdefghijklmnopqrstuvwxyz0123…");
    assert_eq!(string_of(&cut_text_30(&chars_of("short"))), "short");
    let awkward: String = std::iter::repeat("é").take(20).collect();
    assert!(!text_cut_ok(&chars_of(&format!("a{}", awkward))));
    assert!(text_cut_ok(&chars_of(&awkward)));
}

#[test]
fn glue_list_keeps_glue_devices_in_type_then_name_order() {
    let devices = vec![
        glue("t1", "Kitchen timer", Some("timer"), "core.timer"),
        glue("s2", "Porch", Some("switch"), "core.switch"),
        glue("z1", "Zigbee plug", Some("switch"), "zigbee"),
        glue("s1", "Attic", Some("switch"), "core.glue"),
        glue("u1", "Odd", None, "core.glue"),
    ];
    let ids: Vec<String> = glue_list(&devices, "").into_iter().map(|d| d.device_id).collect();
    assert_eq!(ids, vec!["s1", "s2", "t1", "u1"]);
    let found: Vec<String> = glue_list(&devices, "KITCHEN").into_iter().map(|d| d.device_id).collect();
    assert_eq!(found, vec!["t1"]);
    assert_eq!(glue_count(&devices), 4);
}

#[test]
fn glue_forms_and_bodies() {
    assert!(can_create(false, " id ", "Name"));
    assert!(!can_create(true, "id", "Name"));
    assert!(!can_create(false, "  ", "Name"));
    assert_eq!(
        compact_json(&create_body("timer", " t1 ", " Tea ")),
        "{\"config\":{},\"id\":\"t1\",\"name\":\"Tea\",\"type\":\"timer\"}"
    );
    assert_eq!(compact_json(&rename_body("New", "Old").unwrap()), "{\"name\":\"New\"}");
    assert!(rename_body("Old", "Old").is_none());
    assert!(rename_body("  ", "Old").is_none());
    assert_eq!(compact_json(&command_body("toggle")), "{\"command\":\"toggle\"}");
    assert_eq!(compact_json(&command_with_text("set", "value", "x")), "{\"command\":\"set\",\"value\":\"x\"}");
    assert_eq!(compact_json(&timer_start_body()), "{\"command\":\"start\",\"duration_secs\":300}");
    assert_eq!(counter_step(&obj(vec![("step", n(5))])), 5);
    assert_eq!(counter_step(&obj(vec![])), 1);
    let attrs = obj(vec![("options", make_array(vec![s("a"), n(1), s("b")]))]);
    assert_eq!(select_options(&attrs), vec!["a".to_string(), "b".to_string()]);
}

#[test]
fn plugin_status_presentation() {
    assert_eq!(status_dot_class("active"), "plugin-dot plugin-dot--active");
    assert_eq!(status_dot_class("weird"), "plugin-dot plugin-dot--offline");
    assert_eq!(status_label("offline"), "Offline");
    assert_eq!(status_label("weird"), "Unknown");
    assert_eq!(plugin_type_label(true), "Local");
    assert_eq!(plugin_controls(true, "stopped"), (true, false, false));
    assert_eq!(plugin_controls(true, "active"), (false, true, true));
    assert_eq!(plugin_controls(false, "active"), (false, false, false));
    assert!(str_contains("hello", "ell"));
}

#[test]
fn plugin_list_filters_and_sorts_by_name() {
    let plugins = vec![plugin("p.z", "Zwave", "active"), plugin("p.h", "Hue", "stopped"), plugin("p.a", "Alexa", "active")];
    let names: Vec<String> = plugin_list(&plugins, "", &vec![]).into_iter().map(|p| p.display_name).collect();
    assert_eq!(names, vec!["Alexa", "Hue", "Zwave"]);
    let active: Vec<String> =
        plugin_list(&plugins, "", &vec!["active".to_string()]).into_iter().map(|p| p.plugin_id).collect();
    assert_eq!(active, vec!["p.a", "p.z"]);
    let found: Vec<String> = plugin_list(&plugins, "P.H", &vec![]).into_iter().map(|p| p.plugin_id).collect();
    assert_eq!(found, vec!["p.h"]);
    assert_eq!(plugins_heading(&plugins), "3 plugins, 2 active");
    let accented = vec![plugin("p.e", "ÉCLAIR Lights", "active")];
    assert_eq!(plugin_list(&accented, "éclair", &vec![]).len(), 1);
}

#[test]
fn toggling_a_status_twice_restores_the_selection() {
    let mut sel = vec!["active".to_string()];
    toggle_status(&mut sel, "stopped");
    assert_eq!(sel, vec!["active".to_string(), "stopped".to_string()]);
    toggle_status(&mut sel, "stopped");
    assert_eq!(sel, vec!["active".to_string()]);
    toggle_status(&mut sel, "active");
    assert!(sel.is_empty());
}

#[test]
fn plugin_detail_helpers() {
    assert_eq!(heartbeat_text(-5), "0s ago");
    assert_eq!(heartbeat_text(59), "59s ago");
    assert_eq!(heartbeat_text(125), "2m ago");
    assert!(heartbeat_ago(Moment { secs: 0, nanos: 0 }).ends_with("m ago"));
    assert_eq!(heartbeat_ago(Moment { secs: i64::MAX, nanos: 0 }), "0s ago");
    assert_eq!(log_levels(), vec!["trace", "debug", "info", "warn", "error"]);
    assert_eq!(current_log_level(&None), "info");
    assert_eq!(current_log_level(&Some("debug".to_string())), "debug");
    assert_eq!(compact_json(&log_level_body("warn")), "{\"log_level\":\"warn\"}");
    assert_eq!(config_error_message("config file not found"), None);
    assert_eq!(config_error_message("boom"), Some("Config: boom".to_string()));
    assert_eq!(compact_json(&config_body("a = 1")), "{\"raw\":\"a = 1\"}");
    assert_eq!(log_level_note(false), "Requires restart");
}

#[test]
fn thermostat_wizard_choices() {
    let mut sel = vec!["a".to_string()];
    toggle_sensor(&mut sel, "b", true);
    toggle_sensor(&mut sel, "b", true);
    assert_eq!(sel, vec!["a".to_string(), "b".to_string()]);
    toggle_sensor(&mut sel, "a", false);
    assert_eq!(sel, vec!["b".to_string()]);
    assert!(can_create_thermostat(false, "t", "T"));
    assert!(!can_create_thermostat(true, "t", "T"));
    let devices = vec![
        WizardDevice { device_id: "s1".to_string(), name: "bed".to_string(), device_type: None, temperature: Some("20.5".to_string()), has_on: false },
        WizardDevice { device_id: "h1".to_string(), name: "Heater".to_string(), device_type: Some("switch".to_string()), temperature: None, has_on: true },
        WizardDevice { device_id: "t1".to_string(), name: "Thermo".to_string(), device_type: Some("thermostat".to_string()), temperature: Some("19.0".to_string()), has_on: true },
        WizardDevice { device_id: "s2".to_string(), name: "Attic".to_string(), device_type: None, temperature: Some("15.0".to_string()), has_on: false },
    ];
    let sensors = therm_sensor_candidates(&devices);
    assert_eq!(
        sensors,
        vec![("s2".to_string(), "Attic (s2) — 15.0°".to_string()), ("s1".to_string(), "bed (s1) — 20.5°".to_string())]
    );
    assert_eq!(
        therm_actuator_candidates(&devices),
        vec![("h1".to_string(), "Heater (h1)".to_string()), ("t1".to_string(), "Thermo (t1)".to_string())]
    );
    let sorted = sort_options_by_label(vec![("x".to_string(), "b".to_string()), ("y".to_string(), "A".to_string())]);
    assert_eq!(sorted[0].0, "y");
}

#[test]
fn thermostat_command_body() {
    let d = ThermostatDraft {
        id: " t1 ".to_string(),
        name: " Den ".to_string(),
        sensors: vec!["s1".to_string(), "s2".to_string()],
        setpoint: Json::Number(JsonNumber::Float("70.0".to_string())),
        hysteresis: Json::Number(JsonNumber::Float("1.5".to_string())),
        mode: "heat".to_string(),
        actuator: "h1".to_string(),
        min_on_secs: 60,
        min_off_secs: 0,
    };
    assert_eq!(
        compact_json(&thermostat_body(&d)),
        "{\"config\":{\"actuator_device_id\":\"h1\",\"aggregation\":\"average\",\"hysteresis\":1.5,\"id\":\"t1\",\"min_off_secs\":0,\"min_on_secs\":60,\"mode\":\"heat\",\"name\":\"Den\",\"sensor_attribute\":\"temperature\",\"sensor_device_ids\":[\"s1\",\"s2\"],\"setpoint\":70.0}}"
    );
}
