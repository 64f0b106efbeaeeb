use hc_web_leptos::condition_edits::{edit_condition, ConditionEdit, ConditionOptText, ConditionText};
use hc_web_leptos::json::compact_json;
use hc_web_leptos::rule_options::{ChangeKind, CompareOp};
use hc_web_leptos::rule_values::{default_condition, ConditionValue};

#[test]
fn device_state_condition_fields() {
    let mut c = default_condition("device_state");
    edit_condition(&mut c, ConditionEdit::Text(ConditionText::DeviceId, "lamp".to_string()));
    edit_condition(&mut c, ConditionEdit::Text(ConditionText::Attribute, "level".to_string()));
    edit_condition(&mut c, ConditionEdit::Op("Gte".to_string()));
    edit_condition(&mut c, ConditionEdit::Value("40".to_string()));
    match &c {
        ConditionValue::DeviceState { device_id, attribute, op, value } => {
            assert_eq!((device_id.as_str(), attribute.as_str()), ("lamp", "level"));
            assert_eq!(*op, CompareOp::Gte);
            assert_eq!(compact_json(value), "40");
        }
        _ => panic!("the condition changed variant"),
    }
    edit_condition(&mut c, ConditionEdit::Value("  ".to_string()));
    assert!(matches!(&c, ConditionValue::DeviceState { value, .. } if compact_json(value) == "true"));
    edit_condition(&mut c, ConditionEdit::Op("whatever".to_string()));
    assert!(matches!(&c, ConditionValue::DeviceState { op: CompareOp::Eq, .. }));
}

#[test]
fn time_window_and_elapsed() {
    let mut w = default_condition("time_window");
    edit_condition(&mut w, ConditionEdit::Start("07:30".to_string()));
    edit_condition(&mut w, ConditionEdit::End("nope".to_string()));
    assert!(matches!(&w, ConditionValue::TimeWindow { start_secs: 27000, end_secs: 79200 }));
    let mut e = default_condition("time_elapsed");
    edit_condition(&mut e, ConditionEdit::Duration("300".to_string()));
    edit_condition(&mut e, ConditionEdit::Duration("-1".to_string()));
    assert!(matches!(&e, ConditionValue::TimeElapsed { duration_secs: 300, .. }));
}

#[test]
fn last_change_and_flags() {
    let mut c = default_condition("device_last_change");
    edit_condition(&mut c, ConditionEdit::Kind("external".to_string()));
    edit_condition(&mut c, ConditionEdit::OptText(ConditionOptText::ActorName, "Ana".to_string()));
    edit_condition(&mut c, ConditionEdit::OptText(ConditionOptText::Source, String::new()));
    match &c {
        ConditionValue::DeviceLastChange { kind, source, actor_name, .. } => {
            assert_eq!(*kind, Some(ChangeKind::External));
            assert!(source.is_none());
            assert_eq!(actor_name.as_deref(), Some("Ana"));
        }
        _ => panic!("the condition changed variant"),
    }
    let mut b = default_condition("private_boolean_is");
    edit_condition(&mut b, ConditionEdit::Flag("false".to_string()));
    assert!(matches!(&b, ConditionValue::PrivateBooleanIs { value: false, .. }));
    let mut m = default_condition("mode_is");
    edit_condition(&mut m, ConditionEdit::Text(ConditionText::ModeId, "mode_away".to_string()));
    edit_condition(&mut m, ConditionEdit::Flag("true".to_string()));
    assert!(matches!(&m, ConditionValue::ModeIs { mode_id, on: true } if mode_id == "mode_away"));
    let mut h = default_condition("hub_variable");
    edit_condition(&mut h, ConditionEdit::Value("plain".to_string()));
    assert!(matches!(&h, ConditionValue::HubVariable { value, .. } if compact_json(value) == "\"plain\""));
}
