use hc_web_leptos::action_edits::{
    edit_per_mode, PerModeEdit, edit_action, edit_branches, ActionEdit, BranchEdit, FlagField, JsonField, NumberField, OptNumberField,
    OptTextField, TextField,
};
use hc_web_leptos::json::compact_json;
use hc_web_leptos::rule_options::{LogLevel, VariableOp};
use hc_web_leptos::rule_values::{default_action, ActionValue, ModeCommand};

#[test]
fn log_message_text_and_level() {
    let mut a = default_action("log_message");
    edit_action(&mut a, ActionEdit::Text(TextField::Message, "door opened".to_string()));
    edit_action(&mut a, ActionEdit::Level("Warn".to_string()));
    match &a {
        ActionValue::LogMessage { message, level } => {
            assert_eq!(message, "door opened");
            assert_eq!(*level, Some(LogLevel::Warn));
        }
        _ => panic!("the action changed variant"),
    }
    edit_action(&mut a, ActionEdit::Level("".to_string()));
    assert!(matches!(&a, ActionValue::LogMessage { level: None, .. }));
    edit_action(&mut a, ActionEdit::Text(TextField::Url, "http://x".to_string()));
    assert!(matches!(&a, ActionValue::LogMessage { message, .. } if message == "door opened"));
}

#[test]
fn delay_numbers_and_keys() {
    let mut a = default_action("delay");
    edit_action(&mut a, ActionEdit::Number(NumberField::DelaySecs, "90".to_string()));
    edit_action(&mut a, ActionEdit::Number(NumberField::DelaySecs, "soon".to_string()));
    edit_action(&mut a, ActionEdit::Flag(FlagField::Cancelable, true));
    edit_action(&mut a, ActionEdit::OptText(OptTextField::CancelKey, "porch".to_string()));
    match &a {
        ActionValue::Delay { duration_secs, cancelable, cancel_key } => {
            assert_eq!(*duration_secs, 90);
            assert!(*cancelable);
            assert_eq!(cancel_key.as_deref(), Some("porch"));
        }
        _ => panic!("the action changed variant"),
    }
    edit_action(&mut a, ActionEdit::OptText(OptTextField::CancelKey, String::new()));
    assert!(matches!(&a, ActionValue::Delay { cancel_key: None, .. }));
}

#[test]
fn repeat_count_reads_u32() {
    let mut a = default_action("repeat_count");
    edit_action(&mut a, ActionEdit::Number(NumberField::RepeatCount, "4294967296".to_string()));
    assert!(matches!(&a, ActionValue::RepeatCount { count: 3, .. }));
    edit_action(&mut a, ActionEdit::Number(NumberField::RepeatCount, "7".to_string()));
    edit_action(&mut a, ActionEdit::OptNumber(OptNumberField::Interval, "250".to_string()));
    match &a {
        ActionValue::RepeatCount { count, interval_ms, .. } => {
            assert_eq!(*count, 7);
            assert_eq!(*interval_ms, Some(250));
        }
        _ => panic!("the action changed variant"),
    }
    edit_action(&mut a, ActionEdit::OptNumber(OptNumberField::Interval, "".to_string()));
    assert!(matches!(&a, ActionValue::RepeatCount { interval_ms: None, .. }));
}

#[test]
fn call_service_fields() {
    let mut a = default_action("call_service");
    edit_action(&mut a, ActionEdit::Text(TextField::Url, "http://hub/api".to_string()));
    edit_action(&mut a, ActionEdit::Text(TextField::Method, "PUT".to_string()));
    edit_action(&mut a, ActionEdit::Json(JsonField::Body, "{\"b\":2,\"a\":1}".to_string()));
    edit_action(&mut a, ActionEdit::Json(JsonField::Body, "{broken".to_string()));
    edit_action(&mut a, ActionEdit::OptNumber(OptNumberField::Retries, "3".to_string()));
    edit_action(&mut a, ActionEdit::OptNumber(OptNumberField::Timeout, "x".to_string()));
    edit_action(&mut a, ActionEdit::OptText(OptTextField::ResponseEvent, "http_done".to_string()));
    match &a {
        ActionValue::CallService { url, method, body, timeout_ms, retries, response_event } => {
            assert_eq!(url, "http://hub/api");
            assert_eq!(method, "PUT");
            assert_eq!(compact_json(body), "{\"a\":1,\"b\":2}");
            assert_eq!(*timeout_ms, None);
            assert_eq!(*retries, Some(3));
            assert_eq!(response_event.as_deref(), Some("http_done"));
        }
        _ => panic!("the action changed variant"),
    }
}

#[test]
fn variables_and_modes() {
    let mut a = default_action("set_variable");
    edit_action(&mut a, ActionEdit::Text(TextField::Name, "count".to_string()));
    edit_action(&mut a, ActionEdit::Op("add".to_string()));
    edit_action(&mut a, ActionEdit::VariableValue("5".to_string()));
    match &a {
        ActionValue::SetVariable { name, value, op } => {
            assert_eq!(name, "count");
            assert_eq!(compact_json(value), "5");
            assert_eq!(*op, Some(VariableOp::Add));
        }
        _ => panic!("the action changed variant"),
    }
    edit_action(&mut a, ActionEdit::VariableValue("hello".to_string()));
    assert!(matches!(&a, ActionValue::SetVariable { value, .. } if compact_json(value) == "\"hello\""));
    let mut m = default_action("set_mode");
    edit_action(&mut m, ActionEdit::Text(TextField::ModeId, "mode_away".to_string()));
    edit_action(&mut m, ActionEdit::Command(ModeCommand::Toggle));
    assert!(matches!(&m, ActionValue::SetMode { mode_id, command: ModeCommand::Toggle } if mode_id == "mode_away"));
}

#[test]
fn else_if_branches() {
    let mut a = default_action("conditional");
    edit_branches(&mut a, BranchEdit::Add);
    edit_branches(&mut a, BranchEdit::Add);
    edit_branches(&mut a, BranchEdit::SetCondition(1, "x > 2".to_string()));
    edit_branches(&mut a, BranchEdit::Remove(0));
    edit_branches(&mut a, BranchEdit::Remove(5));
    match &a {
        ActionValue::Conditional { else_if, .. } => {
            assert_eq!(else_if.len(), 1);
            assert_eq!(else_if[0].condition, "x > 2");
            assert!(else_if[0].actions.is_empty());
        }
        _ => panic!("the action changed variant"),
    }
}

#[test]
fn per_mode_delays() {
    let mut a = ActionValue::DelayPerMode { modes: vec![], default_secs: None };
    edit_per_mode(&mut a, PerModeEdit::Add);
    edit_per_mode(&mut a, PerModeEdit::Mode(0, "mode_night".to_string()));
    edit_per_mode(&mut a, PerModeEdit::Value(0, "120".to_string()));
    edit_per_mode(&mut a, PerModeEdit::Value(0, "later".to_string()));
    edit_per_mode(&mut a, PerModeEdit::Add);
    edit_per_mode(&mut a, PerModeEdit::Fallback("30".to_string()));
    edit_per_mode(&mut a, PerModeEdit::Remove(1));
    match &a {
        ActionValue::DelayPerMode { modes, default_secs } => {
            assert_eq!(modes, &vec![("mode_night".to_string(), 120)]);
            assert_eq!(*default_secs, Some(30));
        }
        _ => panic!("the action changed variant"),
    }
}

#[test]
fn per_mode_states_and_scenes() {
    let mut a = ActionValue::SetDeviceStatePerMode { device_id: "lamp".to_string(), modes: vec![], default_state: None };
    edit_per_mode(&mut a, PerModeEdit::Add);
    edit_per_mode(&mut a, PerModeEdit::Value(0, "{\"on\":true}".to_string()));
    edit_per_mode(&mut a, PerModeEdit::Value(0, "{oops".to_string()));
    edit_per_mode(&mut a, PerModeEdit::Fallback("{\"on\":false}".to_string()));
    match &a {
        ActionValue::SetDeviceStatePerMode { device_id, modes, default_state } => {
            assert_eq!(device_id, "lamp");
            assert_eq!(modes.len(), 1);
            assert_eq!(modes[0].0, "");
            assert_eq!(compact_json(&modes[0].1), "{\"on\":true}");
            assert_eq!(default_state.as_ref().map(compact_json), Some("{\"on\":false}".to_string()));
        }
        _ => panic!("the action changed variant"),
    }
    edit_per_mode(&mut a, PerModeEdit::Fallback("   ".to_string()));
    assert!(matches!(&a, ActionValue::SetDeviceStatePerMode { default_state: None, .. }));
    let mut s = ActionValue::ActivateScenePerMode { modes: vec![], default_scene_id: Some(5) };
    edit_per_mode(&mut s, PerModeEdit::Add);
    edit_per_mode(&mut s, PerModeEdit::Value(0, "00000000-0000-0000-0000-00000000000a".to_string()));
    edit_per_mode(&mut s, PerModeEdit::Value(0, "not-a-uuid".to_string()));
    edit_per_mode(&mut s, PerModeEdit::Fallback(String::new()));
    match &s {
        ActionValue::ActivateScenePerMode { modes, default_scene_id } => {
            assert_eq!(modes, &vec![(String::new(), 10)]);
            assert!(default_scene_id.is_none());
        }
        _ => panic!("the action changed variant"),
    }
}
