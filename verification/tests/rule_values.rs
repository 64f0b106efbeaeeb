use hc_web_leptos::json::{compact_json, Json, JsonNumber};
use hc_web_leptos::rule_kinds::{ActionKind, ConditionKind};
use hc_web_leptos::rule_options::{ButtonEventType, CompareOp, LogLevel, PeriodicUnit, SunEventType, ThresholdOp};
use hc_web_leptos::rule_values::{
    action_kind, add_nested_action, add_rule_action, add_rule_condition, category_click_action, condition_kind,
    default_action, default_condition, default_trigger, edit_conditions, edit_group, reset_not, select_command,
    set_action_type, set_condition_type, set_group_child, set_state_text, set_trigger_type, trigger_kind,
    ActionValue, ConditionValue, GroupEdit, ModeCommand, RuleAction, RuleBody, TriggerValue,
};
use hc_web_leptos::rules::TriggerKind;

fn text(j: &Json) -> String {
    compact_json(j)
}

fn script(s: &str) -> ConditionValue {
    ConditionValue::ScriptExpression { script: s.to_string() }
}

fn script_of(c: &ConditionValue) -> &str {
    match c {
        ConditionValue::ScriptExpression { script } => script.as_str(),
        _ => "",
    }
}

fn is_new_device_state(c: &ConditionValue) -> bool {
    match c {
        ConditionValue::DeviceState { device_id, attribute, op, value } => {
            device_id.is_empty() && attribute == "on" && *op == CompareOp::Eq && matches!(value, Json::Bool(true))
        }
        _ => false,
    }
}

fn device_action(state: Json) -> ActionValue {
    ActionValue::SetDeviceState { device_id: "lamp".to_string(), state, track_event_value: true }
}

fn state_text(a: &ActionValue) -> String {
    match a {
        ActionValue::SetDeviceState { state, .. } => text(state),
        ActionValue::FadeDevice { target, .. } => text(target),
        _ => String::new(),
    }
}

#[test]
fn default_device_state_condition_fields() {
    let c = default_condition("device_state");
    assert!(is_new_device_state(&c));
    assert_eq!(condition_kind(&c), ConditionKind::DeviceState);
}

#[test]
fn default_conditions_of_other_kinds() {
    match default_condition("time_window") {
        ConditionValue::TimeWindow { start_secs, end_secs } => assert_eq!((start_secs, end_secs), (8 * 3600, 22 * 3600)),
        _ => panic!("expected a time window"),
    }
    match default_condition("not") {
        ConditionValue::Not { condition } => assert!(is_new_device_state(&condition)),
        _ => panic!("expected not"),
    }
    match default_condition("xor") {
        ConditionValue::Xor { conditions } => assert!(conditions.is_empty()),
        _ => panic!("expected xor"),
    }
    match default_condition("hub_variable") {
        ConditionValue::HubVariable { name, op, value } => {
            assert!(name.is_empty());
            assert_eq!(op, CompareOp::Eq);
            assert_eq!(text(&value), "\"\"");
        }
        _ => panic!("expected a hub variable"),
    }
    assert!(is_new_device_state(&default_condition("no_such_kind")));
}

#[test]
fn group_add_keeps_variant() {
    let mut g = ConditionValue::Or { conditions: vec![script("a")] };
    edit_group(&mut g, GroupEdit::Add);
    match &g {
        ConditionValue::Or { conditions } => {
            assert_eq!(conditions.len(), 2);
            assert_eq!(script_of(&conditions[0]), "a");
            assert!(is_new_device_state(&conditions[1]));
        }
        _ => panic!("the group changed variant"),
    }
}

#[test]
fn group_moves_and_removes() {
    let mut g = ConditionValue::Xor { conditions: vec![script("a"), script("b"), script("c")] };
    edit_group(&mut g, GroupEdit::MoveUp(2));
    edit_group(&mut g, GroupEdit::MoveDown(0));
    edit_group(&mut g, GroupEdit::Remove(2));
    edit_group(&mut g, GroupEdit::Remove(9));
    edit_group(&mut g, GroupEdit::MoveUp(0));
    match &g {
        ConditionValue::Xor { conditions } => {
            let names: Vec<&str> = conditions.iter().map(script_of).collect();
            assert_eq!(names, vec!["c", "a"]);
        }
        _ => panic!("the group changed variant"),
    }
    let mut other = script("x");
    edit_group(&mut other, GroupEdit::Add);
    assert_eq!(script_of(&other), "x");
}

#[test]
fn condition_list_edits() {
    let mut cs = vec![script("a"), script("b")];
    edit_conditions(&mut cs, GroupEdit::MoveDown(0));
    assert_eq!(cs.iter().map(script_of).collect::<Vec<_>>(), vec!["b", "a"]);
    edit_conditions(&mut cs, GroupEdit::MoveDown(1));
    assert_eq!(cs.iter().map(script_of).collect::<Vec<_>>(), vec!["b", "a"]);
}

#[test]
fn group_child_is_replaced() {
    let mut g = ConditionValue::And { conditions: vec![script("a"), script("b")] };
    set_group_child(&mut g, 1, script("z"));
    set_group_child(&mut g, 5, script("q"));
    match &g {
        ConditionValue::And { conditions } => {
            assert_eq!(conditions.iter().map(script_of).collect::<Vec<_>>(), vec!["a", "z"]);
        }
        _ => panic!("the group changed variant"),
    }
    match reset_not() {
        ConditionValue::Not { condition } => assert!(is_new_device_state(&condition)),
        _ => panic!("expected not"),
    }
}

#[test]
fn default_log_message_action() {
    match default_action("log_message") {
        ActionValue::LogMessage { message, level } => {
            assert!(message.is_empty());
            assert!(level.is_none());
        }
        _ => panic!("expected a log message"),
    }
    assert_eq!(action_kind(&default_action("not_a_kind")), ActionKind::LogMessage);
    assert_eq!(action_kind(&default_action("delay_per_mode")), ActionKind::LogMessage);
}

#[test]
fn default_actions_fix_their_fields() {
    match default_action("call_service") {
        ActionValue::CallService { url, method, body, timeout_ms, retries, response_event } => {
            assert!(url.is_empty());
            assert_eq!(method, "POST");
            assert_eq!(text(&body), "{}");
            assert!(timeout_ms.is_none() && retries.is_none() && response_event.is_none());
        }
        _ => panic!("expected a service call"),
    }
    match default_action("delay") {
        ActionValue::Delay { duration_secs, cancelable, cancel_key } => {
            assert_eq!(duration_secs, 5);
            assert!(!cancelable && cancel_key.is_none());
        }
        _ => panic!("expected a delay"),
    }
    match default_action("repeat_count") {
        ActionValue::RepeatCount { count, actions, interval_ms } => {
            assert_eq!(count, 3);
            assert!(actions.is_empty() && interval_ms.is_none());
        }
        _ => panic!("expected a counted repeat"),
    }
    match default_action("fade_device") {
        ActionValue::FadeDevice { device_id, target, duration_secs, steps } => {
            assert!(device_id.is_empty());
            assert_eq!(text(&target), "{}");
            assert_eq!(duration_secs, 30);
            assert!(steps.is_none());
        }
        _ => panic!("expected a fade"),
    }
    match default_action("set_mode") {
        ActionValue::SetMode { mode_id, command } => {
            assert!(mode_id.is_empty());
            assert_eq!(command, ModeCommand::On);
        }
        _ => panic!("expected a mode switch"),
    }
    match default_action("run_rule_actions") {
        ActionValue::RunRuleActions { rule_id } => assert_eq!(rule_id, 0),
        _ => panic!("expected run rule actions"),
    }
}

#[test]
fn category_click_hands_on_default_action() {
    let current = ActionValue::LogMessage { message: "hi".to_string(), level: Some(LogLevel::Warn) };
    match category_click_action(&current, "timing") {
        Some(ActionValue::Delay { duration_secs, .. }) => assert_eq!(duration_secs, 5),
        _ => panic!("expected a new delay"),
    }
    match category_click_action(&current, "device") {
        Some(ActionValue::SetDeviceState { device_id, state, track_event_value }) => {
            assert!(device_id.is_empty() && !track_event_value);
            assert_eq!(text(&state), "{}");
        }
        _ => panic!("expected a new device command"),
    }
    let delay = default_action("delay");
    assert!(category_click_action(&delay, "timing").is_none());
}

#[test]
fn builder_selects_command_state() {
    let mut a = device_action(Json::Null);
    select_command(&mut a, "on_true", &Json::Object(vec![]));
    assert_eq!(state_text(&a), "{\"on\":true}");
    match &a {
        ActionValue::SetDeviceState { device_id, track_event_value, .. } => {
            assert_eq!(device_id, "lamp");
            assert!(*track_event_value);
        }
        _ => panic!("the action changed variant"),
    }
    let mut fade = default_action("fade_device");
    let attrs = Json::Object(vec![("brightness_pct".to_string(), Json::Number(JsonNumber::PosInt(70)))]);
    select_command(&mut fade, "brightness_pct", &attrs);
    assert_eq!(state_text(&fade), "{\"brightness_pct\":70}");
}

#[test]
fn builder_raw_state_text() {
    let mut a = device_action(Json::Null);
    assert!(set_state_text(&mut a, "   "));
    assert_eq!(state_text(&a), "{}");
    assert!(set_state_text(&mut a, " {\"on\": false} "));
    assert_eq!(state_text(&a), "{\"on\":false}");
    assert!(!set_state_text(&mut a, "{oops"));
    assert_eq!(state_text(&a), "{\"on\":false}");
}

#[test]
fn default_triggers_fix_their_fields() {
    match default_trigger("time_of_day") {
        TriggerValue::TimeOfDay { time_secs, days } => {
            assert_eq!(time_secs, 8 * 3600);
            assert_eq!(days, vec![0, 1, 2, 3, 4, 5, 6]);
        }
        _ => panic!("expected a time of day"),
    }
    match default_trigger("numeric_threshold") {
        TriggerValue::NumericThreshold { device_id, attribute, op, value, for_duration_secs } => {
            assert!(device_id.is_empty() && attribute.is_empty() && for_duration_secs.is_none());
            assert_eq!(op, ThresholdOp::CrossesAbove);
            assert_eq!(text(&value), "0.0");
        }
        _ => panic!("expected a threshold"),
    }
    match default_trigger("button_event") {
        TriggerValue::ButtonEvent { event, .. } => assert_eq!(event, ButtonEventType::Pushed),
        _ => panic!("expected a button event"),
    }
    match default_trigger("sun_event") {
        TriggerValue::SunEvent { event, offset_minutes } => {
            assert_eq!(event, SunEventType::Sunset);
            assert_eq!(offset_minutes, 0);
        }
        _ => panic!("expected a sun event"),
    }
    match default_trigger("periodic") {
        TriggerValue::Periodic { every_n, unit } => assert_eq!((every_n, unit), (15, PeriodicUnit::Minutes)),
        _ => panic!("expected a periodic trigger"),
    }
    match default_trigger("webhook_received") {
        TriggerValue::WebhookReceived { path } => assert_eq!(path, "/hooks/"),
        _ => panic!("expected a webhook"),
    }
    assert_eq!(trigger_kind(&default_trigger("something_else")), TriggerKind::ManualTrigger);
}

#[test]
fn rule_body_edits() {
    let mut r = RuleBody {
        trigger: TriggerValue::ManualTrigger,
        conditions: vec![script("a")],
        actions: vec![RuleAction { enabled: false, action: default_action("delay") }],
    };
    set_trigger_type(&mut r, "cron");
    match &r.trigger {
        TriggerValue::Cron { expression } => assert_eq!(expression, "0 0 8 * * *"),
        _ => panic!("expected cron"),
    }
    add_rule_condition(&mut r);
    assert_eq!(r.conditions.len(), 2);
    assert!(is_new_device_state(&r.conditions[1]));
    add_rule_action(&mut r);
    assert_eq!(r.actions.len(), 2);
    assert!(!r.actions[0].enabled && r.actions[1].enabled);
    assert_eq!(action_kind(&r.actions[1].action), ActionKind::LogMessage);
    let mut nested = vec![];
    add_nested_action(&mut nested);
    assert_eq!(action_kind(&nested[0]), ActionKind::LogMessage);
    let mut c = script("x");
    set_condition_type(&mut c, "mode_is");
    assert_eq!(condition_kind(&c), ConditionKind::ModeIs);
    let mut a = default_action("delay");
    set_action_type(&mut a, "notify");
    assert_eq!(action_kind(&a), ActionKind::Notify);
}
