//! The kinds of triggers, conditions and actions that the rule editor
//! offers, the picker keys that name them, and the action categories.
use vstd::prelude::*;
use crate::text::{str_eq, key_sig, lemma_sig_differs};
use crate::rules::{TriggerKind, trigger_type_of, trigger_type};

verus! {

// ── Triggers ─────────────────────────────────────────────────────────────────
/// Every trigger kind the picker offers, in the order of their keys.
pub open spec fn all_trigger_kinds() -> Seq<TriggerKind> {
    seq![
        TriggerKind::ButtonEvent,
        TriggerKind::CalendarEvent,
        TriggerKind::Cron,
        TriggerKind::CustomEvent,
        TriggerKind::DeviceAvailabilityChanged,
        TriggerKind::DeviceBatteryLow,
        TriggerKind::DeviceBatteryRecovered,
        TriggerKind::DeviceStateChanged,
        TriggerKind::HubVariableChanged,
        TriggerKind::ManualTrigger,
        TriggerKind::ModeChanged,
        TriggerKind::MqttMessage,
        TriggerKind::NumericThreshold,
        TriggerKind::Periodic,
        TriggerKind::SunEvent,
        TriggerKind::SystemStarted,
        TriggerKind::TimeOfDay,
        TriggerKind::WebhookReceived,
    ]
}

fn trigger_kinds() -> (r: Vec<TriggerKind>)
    ensures
        r@ == all_trigger_kinds(),
{
    vec![
        TriggerKind::ButtonEvent,
        TriggerKind::CalendarEvent,
        TriggerKind::Cron,
        TriggerKind::CustomEvent,
        TriggerKind::DeviceAvailabilityChanged,
        TriggerKind::DeviceBatteryLow,
        TriggerKind::DeviceBatteryRecovered,
        TriggerKind::DeviceStateChanged,
        TriggerKind::HubVariableChanged,
        TriggerKind::ManualTrigger,
        TriggerKind::ModeChanged,
        TriggerKind::MqttMessage,
        TriggerKind::NumericThreshold,
        TriggerKind::Periodic,
        TriggerKind::SunEvent,
        TriggerKind::SystemStarted,
        TriggerKind::TimeOfDay,
        TriggerKind::WebhookReceived,
    ]
}

/// The trigger kind whose key has the given signature.
spec fn trigger_by_sig(sig: (int, char, char, char)) -> Option<TriggerKind> {
    if sig == (12int, 'b', 't', 'n') {
        Some(TriggerKind::ButtonEvent)
    } else if sig == (14int, 'c', 't', 'n') {
        Some(TriggerKind::CalendarEvent)
    } else if sig == (4int, 'c', 'n', 'o') {
        Some(TriggerKind::Cron)
    } else if sig == (12int, 'c', 't', 'n') {
        Some(TriggerKind::CustomEvent)
    } else if sig == (27int, 'd', 'd', 'e') {
        Some(TriggerKind::DeviceAvailabilityChanged)
    } else if sig == (18int, 'd', 'w', 'o') {
        Some(TriggerKind::DeviceBatteryLow)
    } else if sig == (24int, 'd', 'd', 'e') {
        Some(TriggerKind::DeviceBatteryRecovered)
    } else if sig == (20int, 'd', 'd', 'e') {
        Some(TriggerKind::DeviceStateChanged)
    } else if sig == (20int, 'h', 'd', 'e') {
        Some(TriggerKind::HubVariableChanged)
    } else if sig == (14int, 'm', 'r', 'e') {
        Some(TriggerKind::ManualTrigger)
    } else if sig == (12int, 'm', 'd', 'e') {
        Some(TriggerKind::ModeChanged)
    } else if sig == (12int, 'm', 'e', 'g') {
        Some(TriggerKind::MqttMessage)
    } else if sig == (17int, 'n', 'd', 'l') {
        Some(TriggerKind::NumericThreshold)
    } else if sig == (8int, 'p', 'c', 'i') {
        Some(TriggerKind::Periodic)
    } else if sig == (9int, 's', 't', 'n') {
        Some(TriggerKind::SunEvent)
    } else if sig == (14int, 's', 'd', 'e') {
        Some(TriggerKind::SystemStarted)
    } else if sig == (11int, 't', 'y', 'a') {
        Some(TriggerKind::TimeOfDay)
    } else if sig == (16int, 'w', 'd', 'e') {
        Some(TriggerKind::WebhookReceived)
    } else {
        None
    }
}

proof fn lemma_trigger_sig(k: TriggerKind)
    ensures
        trigger_by_sig(key_sig(trigger_type_of(k))) == Some(k),
{
    reveal_strlit("button_event");
    reveal_strlit("calendar_event");
    reveal_strlit("cron");
    reveal_strlit("custom_event");
    reveal_strlit("device_availability_changed");
    reveal_strlit("device_battery_low");
    reveal_strlit("device_battery_recovered");
    reveal_strlit("device_state_changed");
    reveal_strlit("hub_variable_changed");
    reveal_strlit("manual_trigger");
    reveal_strlit("mode_changed");
    reveal_strlit("mqtt_message");
    reveal_strlit("numeric_threshold");
    reveal_strlit("periodic");
    reveal_strlit("sun_event");
    reveal_strlit("system_started");
    reveal_strlit("time_of_day");
    reveal_strlit("webhook_received");
}

/// Two trigger kinds with the same key are the same kind.
proof fn lemma_trigger_keys_distinct(a: TriggerKind, b: TriggerKind)
    requires
        trigger_type_of(a) == trigger_type_of(b),
    ensures
        a == b,
{
    lemma_trigger_sig(a);
    lemma_trigger_sig(b);
}

proof fn lemma_trigger_listed(k: TriggerKind)
    ensures
        all_trigger_kinds().contains(k),
{
    match k {
        TriggerKind::ButtonEvent => assert(all_trigger_kinds()[0] == k),
        TriggerKind::CalendarEvent => assert(all_trigger_kinds()[1] == k),
        TriggerKind::Cron => assert(all_trigger_kinds()[2] == k),
        TriggerKind::CustomEvent => assert(all_trigger_kinds()[3] == k),
        TriggerKind::DeviceAvailabilityChanged => assert(all_trigger_kinds()[4] == k),
        TriggerKind::DeviceBatteryLow => assert(all_trigger_kinds()[5] == k),
        TriggerKind::DeviceBatteryRecovered => assert(all_trigger_kinds()[6] == k),
        TriggerKind::DeviceStateChanged => assert(all_trigger_kinds()[7] == k),
        TriggerKind::HubVariableChanged => assert(all_trigger_kinds()[8] == k),
        TriggerKind::ManualTrigger => assert(all_trigger_kinds()[9] == k),
        TriggerKind::ModeChanged => assert(all_trigger_kinds()[10] == k),
        TriggerKind::MqttMessage => assert(all_trigger_kinds()[11] == k),
        TriggerKind::NumericThreshold => assert(all_trigger_kinds()[12] == k),
        TriggerKind::Periodic => assert(all_trigger_kinds()[13] == k),
        TriggerKind::SunEvent => assert(all_trigger_kinds()[14] == k),
        TriggerKind::SystemStarted => assert(all_trigger_kinds()[15] == k),
        TriggerKind::TimeOfDay => assert(all_trigger_kinds()[16] == k),
        TriggerKind::WebhookReceived => assert(all_trigger_kinds()[17] == k),
    }
}

/// The trigger a picker key starts: the kind whose key it is, else a manual
/// trigger.
pub open spec fn trigger_kind_of(key: Seq<char>) -> TriggerKind {
    if exists|k: TriggerKind| trigger_type_of(k) == key {
        choose|k: TriggerKind| trigger_type_of(k) == key
    } else {
        TriggerKind::ManualTrigger
    }
}

/// The kind of the default trigger that a picker key selects.
pub fn default_trigger_kind(key: &str) -> (r: TriggerKind)
    ensures
        r == trigger_kind_of(key@),
{
    let kinds = trigger_kinds();
    let mut i: usize = 0;
    while i < kinds.len()
        invariant
            kinds@ == all_trigger_kinds(),
            0 <= i <= kinds@.len(),
            forall|j: int| 0 <= j < i ==> trigger_type_of(#[trigger] kinds@[j]) != key@,
        decreases kinds.len() - i,
    {
        let k = kinds[i];
        if str_eq(key, trigger_type(k)) {
            proof {
                let c = choose|c: TriggerKind| trigger_type_of(c) == key@;
                lemma_trigger_keys_distinct(c, k);
            }
            return k;
        }
        i = i + 1;
    }
    proof {
        assert forall|k: TriggerKind| trigger_type_of(k) != key@ by {
            lemma_trigger_listed(k);
            let j = choose|j: int| 0 <= j < kinds@.len() && kinds@[j] == k;
        }
    }
    TriggerKind::ManualTrigger
}

/// The picker key of a trigger.
pub fn trigger_variant_key(k: TriggerKind) -> (r: &'static str)
    ensures
        r@ == trigger_type_of(k),
{
    trigger_type(k)
}

/// Choosing a trigger's own key in the picker gives a trigger of that kind.
pub proof fn law_trigger_key_roundtrip(k: TriggerKind)
    ensures
        trigger_kind_of(trigger_type_of(k)) == k,
{
    let c = choose|c: TriggerKind| trigger_type_of(c) == trigger_type_of(k);
    lemma_trigger_keys_distinct(c, k);
}

// ── Conditions ───────────────────────────────────────────────────────────────
/// The kind of a rule condition.
#[derive(PartialEq, Eq, Structural, Clone, Copy, Debug)]
pub enum ConditionKind {
    DeviceState,
    TimeWindow,
    ScriptExpression,
    TimeElapsed,
    DeviceLastChange,
    Not,
    And,
    Or,
    Xor,
    PrivateBooleanIs,
    HubVariable,
    ModeIs,
    CalendarActive,
}

/// The picker key of a condition kind.
pub open spec fn condition_key_of(k: ConditionKind) -> Seq<char> {
    match k {
        ConditionKind::And => "and"@,
        ConditionKind::CalendarActive => "calendar_active"@,
        ConditionKind::DeviceLastChange => "device_last_change"@,
        ConditionKind::DeviceState => "device_state"@,
        ConditionKind::HubVariable => "hub_variable"@,
        ConditionKind::ModeIs => "mode_is"@,
        ConditionKind::Not => "not"@,
        ConditionKind::Or => "or"@,
        ConditionKind::PrivateBooleanIs => "private_boolean_is"@,
        ConditionKind::ScriptExpression => "script_expression"@,
        ConditionKind::TimeElapsed => "time_elapsed"@,
        ConditionKind::TimeWindow => "time_window"@,
        ConditionKind::Xor => "xor"@,
    }
}

pub fn condition_variant_key(k: ConditionKind) -> (r: &'static str)
    ensures
        r@ == condition_key_of(k),
{
    match k {
        ConditionKind::And => "and",
        ConditionKind::CalendarActive => "calendar_active",
        ConditionKind::DeviceLastChange => "device_last_change",
        ConditionKind::DeviceState => "device_state",
        ConditionKind::HubVariable => "hub_variable",
        ConditionKind::ModeIs => "mode_is",
        ConditionKind::Not => "not",
        ConditionKind::Or => "or",
        ConditionKind::PrivateBooleanIs => "private_boolean_is",
        ConditionKind::ScriptExpression => "script_expression",
        ConditionKind::TimeElapsed => "time_elapsed",
        ConditionKind::TimeWindow => "time_window",
        ConditionKind::Xor => "xor",
    }
}
/// Every condition kind the picker offers, in the order of their keys.
pub open spec fn all_condition_kinds() -> Seq<ConditionKind> {
    seq![
        ConditionKind::And,
        ConditionKind::CalendarActive,
        ConditionKind::DeviceLastChange,
        ConditionKind::DeviceState,
        ConditionKind::HubVariable,
        ConditionKind::ModeIs,
        ConditionKind::Not,
        ConditionKind::Or,
        ConditionKind::PrivateBooleanIs,
        ConditionKind::ScriptExpression,
        ConditionKind::TimeElapsed,
        ConditionKind::TimeWindow,
        ConditionKind::Xor,
    ]
}

fn condition_kinds() -> (r: Vec<ConditionKind>)
    ensures
        r@ == all_condition_kinds(),
{
    vec![
        ConditionKind::And,
        ConditionKind::CalendarActive,
        ConditionKind::DeviceLastChange,
        ConditionKind::DeviceState,
        ConditionKind::HubVariable,
        ConditionKind::ModeIs,
        ConditionKind::Not,
        ConditionKind::Or,
        ConditionKind::PrivateBooleanIs,
        ConditionKind::ScriptExpression,
        ConditionKind::TimeElapsed,
        ConditionKind::TimeWindow,
        ConditionKind::Xor,
    ]
}

/// The condition kind whose key has the given signature.
spec fn condition_by_sig(sig: (int, char, char, char)) -> Option<ConditionKind> {
    if sig == (3int, 'a', 'd', 'n') {
        Some(ConditionKind::And)
    } else if sig == (15int, 'c', 'e', 'v') {
        Some(ConditionKind::CalendarActive)
    } else if sig == (18int, 'd', 'e', 'g') {
        Some(ConditionKind::DeviceLastChange)
    } else if sig == (12int, 'd', 'e', 't') {
        Some(ConditionKind::DeviceState)
    } else if sig == (12int, 'h', 'e', 'l') {
        Some(ConditionKind::HubVariable)
    } else if sig == (7int, 'm', 's', 'i') {
        Some(ConditionKind::ModeIs)
    } else if sig == (3int, 'n', 't', 'o') {
        Some(ConditionKind::Not)
    } else if sig == (2int, 'o', 'r', 'o') {
        Some(ConditionKind::Or)
    } else if sig == (18int, 'p', 's', 'i') {
        Some(ConditionKind::PrivateBooleanIs)
    } else if sig == (17int, 's', 'n', 'o') {
        Some(ConditionKind::ScriptExpression)
    } else if sig == (12int, 't', 'd', 'e') {
        Some(ConditionKind::TimeElapsed)
    } else if sig == (11int, 't', 'w', 'o') {
        Some(ConditionKind::TimeWindow)
    } else if sig == (3int, 'x', 'r', 'o') {
        Some(ConditionKind::Xor)
    } else {
        None
    }
}

proof fn lemma_condition_sig(k: ConditionKind)
    ensures
        condition_by_sig(key_sig(condition_key_of(k))) == Some(k),
{
    reveal_strlit("and");
    reveal_strlit("calendar_active");
    reveal_strlit("device_last_change");
    reveal_strlit("device_state");
    reveal_strlit("hub_variable");
    reveal_strlit("mode_is");
    reveal_strlit("not");
    reveal_strlit("or");
    reveal_strlit("private_boolean_is");
    reveal_strlit("script_expression");
    reveal_strlit("time_elapsed");
    reveal_strlit("time_window");
    reveal_strlit("xor");
}

/// Two condition kinds with the same key are the same kind.
proof fn lemma_condition_keys_distinct(a: ConditionKind, b: ConditionKind)
    requires
        condition_key_of(a) == condition_key_of(b),
    ensures
        a == b,
{
    lemma_condition_sig(a);
    lemma_condition_sig(b);
}

proof fn lemma_condition_listed(k: ConditionKind)
    ensures
        all_condition_kinds().contains(k),
{
    match k {
        ConditionKind::And => assert(all_condition_kinds()[0] == k),
        ConditionKind::CalendarActive => assert(all_condition_kinds()[1] == k),
        ConditionKind::DeviceLastChange => assert(all_condition_kinds()[2] == k),
        ConditionKind::DeviceState => assert(all_condition_kinds()[3] == k),
        ConditionKind::HubVariable => assert(all_condition_kinds()[4] == k),
        ConditionKind::ModeIs => assert(all_condition_kinds()[5] == k),
        ConditionKind::Not => assert(all_condition_kinds()[6] == k),
        ConditionKind::Or => assert(all_condition_kinds()[7] == k),
        ConditionKind::PrivateBooleanIs => assert(all_condition_kinds()[8] == k),
        ConditionKind::ScriptExpression => assert(all_condition_kinds()[9] == k),
        ConditionKind::TimeElapsed => assert(all_condition_kinds()[10] == k),
        ConditionKind::TimeWindow => assert(all_condition_kinds()[11] == k),
        ConditionKind::Xor => assert(all_condition_kinds()[12] == k),
    }
}

/// The condition a picker key starts: the kind whose key it is, else a
/// device state condition.
pub open spec fn condition_kind_of(key: Seq<char>) -> ConditionKind {
    if exists|k: ConditionKind| condition_key_of(k) == key {
        choose|k: ConditionKind| condition_key_of(k) == key
    } else {
        ConditionKind::DeviceState
    }
}

pub fn default_condition_kind(key: &str) -> (r: ConditionKind)
    ensures
        r == condition_kind_of(key@),
{
    let kinds = condition_kinds();
    let mut i: usize = 0;
    while i < kinds.len()
        invariant
            kinds@ == all_condition_kinds(),
            0 <= i <= kinds@.len(),
            forall|j: int| 0 <= j < i ==> condition_key_of(#[trigger] kinds@[j]) != key@,
        decreases kinds.len() - i,
    {
        let k = kinds[i];
        if str_eq(key, condition_variant_key(k)) {
            proof {
                let c = choose|c: ConditionKind| condition_key_of(c) == key@;
                lemma_condition_keys_distinct(c, k);
            }
            return k;
        }
        i = i + 1;
    }
    proof {
        assert forall|k: ConditionKind| condition_key_of(k) != key@ by {
            lemma_condition_listed(k);
            let j = choose|j: int| 0 <= j < kinds@.len() && kinds@[j] == k;
        }
    }
    ConditionKind::DeviceState
}

/// Choosing a condition's own key gives a condition of that kind.
pub proof fn law_condition_key_roundtrip(k: ConditionKind)
    ensures
        condition_kind_of(condition_key_of(k)) == k,
{
    let c = choose|c: ConditionKind| condition_key_of(c) == condition_key_of(k);
    lemma_condition_keys_distinct(c, k);
}

// ── Actions ──────────────────────────────────────────────────────────────────
/// The kind of a rule action.
#[derive(PartialEq, Eq, Structural, Clone, Copy, Debug)]
pub enum ActionKind {
    SetDeviceState,
    PublishMqtt,
    CallService,
    FireEvent,
    RunScript,
    Notify,
    Delay,
    Parallel,
    RepeatUntil,
    RepeatWhile,
    RepeatCount,
    Conditional,
    StopRuleChain,
    ExitRule,
    Comment,
    WaitForEvent,
    WaitForExpression,
    SetVariable,
    RunRuleActions,
    PauseRule,
    ResumeRule,
    CancelDelays,
    CancelRuleTimers,
    SetPrivateBoolean,
    LogMessage,
    SetDeviceStatePerMode,
    PingHost,
    CaptureDeviceState,
    RestoreDeviceState,
    DelayPerMode,
    SetHubVariable,
    ActivateScenePerMode,
    FadeDevice,
    SetMode,
}

/// The picker key of an action kind.
pub open spec fn action_key_of(k: ActionKind) -> Seq<char> {
    match k {
        ActionKind::ActivateScenePerMode => "activate_scene_per_mode"@,
        ActionKind::CallService => "call_service"@,
        ActionKind::CancelDelays => "cancel_delays"@,
        ActionKind::CancelRuleTimers => "cancel_rule_timers"@,
        ActionKind::CaptureDeviceState => "capture_device_state"@,
        ActionKind::Comment => "comment"@,
        ActionKind::Conditional => "conditional"@,
        ActionKind::Delay => "delay"@,
        ActionKind::DelayPerMode => "delay_per_mode"@,
        ActionKind::ExitRule => "exit_rule"@,
        ActionKind::FadeDevice => "fade_device"@,
        ActionKind::FireEvent => "fire_event"@,
        ActionKind::LogMessage => "log_message"@,
        ActionKind::Notify => "notify"@,
        ActionKind::Parallel => "parallel"@,
        ActionKind::PauseRule => "pause_rule"@,
        ActionKind::PingHost => "ping_host"@,
        ActionKind::PublishMqtt => "publish_mqtt"@,
        ActionKind::RepeatCount => "repeat_count"@,
        ActionKind::RepeatUntil => "repeat_until"@,
        ActionKind::RepeatWhile => "repeat_while"@,
        ActionKind::RestoreDeviceState => "restore_device_state"@,
        ActionKind::ResumeRule => "resume_rule"@,
        ActionKind::RunRuleActions => "run_rule_actions"@,
        ActionKind::RunScript => "run_script"@,
        ActionKind::SetDeviceState => "set_device_state"@,
        ActionKind::SetDeviceStatePerMode => "set_device_state_per_mode"@,
        ActionKind::SetHubVariable => "set_hub_variable"@,
        ActionKind::SetMode => "set_mode"@,
        ActionKind::SetPrivateBoolean => "set_private_boolean"@,
        ActionKind::SetVariable => "set_variable"@,
        ActionKind::StopRuleChain => "stop_rule_chain"@,
        ActionKind::WaitForEvent => "wait_for_event"@,
        ActionKind::WaitForExpression => "wait_for_expression"@,
    }
}

pub fn action_variant_key(k: ActionKind) -> (r: &'static str)
    ensures
        r@ == action_key_of(k),
{
    match k {
        ActionKind::ActivateScenePerMode => "activate_scene_per_mode",
        ActionKind::CallService => "call_service",
        ActionKind::CancelDelays => "cancel_delays",
        ActionKind::CancelRuleTimers => "cancel_rule_timers",
        ActionKind::CaptureDeviceState => "capture_device_state",
        ActionKind::Comment => "comment",
        ActionKind::Conditional => "conditional",
        ActionKind::Delay => "delay",
        ActionKind::DelayPerMode => "delay_per_mode",
        ActionKind::ExitRule => "exit_rule",
        ActionKind::FadeDevice => "fade_device",
        ActionKind::FireEvent => "fire_event",
        ActionKind::LogMessage => "log_message",
        ActionKind::Notify => "notify",
        ActionKind::Parallel => "parallel",
        ActionKind::PauseRule => "pause_rule",
        ActionKind::PingHost => "ping_host",
        ActionKind::PublishMqtt => "publish_mqtt",
        ActionKind::RepeatCount => "repeat_count",
        ActionKind::RepeatUntil => "repeat_until",
        ActionKind::RepeatWhile => "repeat_while",
        ActionKind::RestoreDeviceState => "restore_device_state",
        ActionKind::ResumeRule => "resume_rule",
        ActionKind::RunRuleActions => "run_rule_actions",
        ActionKind::RunScript => "run_script",
        ActionKind::SetDeviceState => "set_device_state",
        ActionKind::SetDeviceStatePerMode => "set_device_state_per_mode",
        ActionKind::SetHubVariable => "set_hub_variable",
        ActionKind::SetMode => "set_mode",
        ActionKind::SetPrivateBoolean => "set_private_boolean",
        ActionKind::SetVariable => "set_variable",
        ActionKind::StopRuleChain => "stop_rule_chain",
        ActionKind::WaitForEvent => "wait_for_event",
        ActionKind::WaitForExpression => "wait_for_expression",
    }
}

/// Whether the action picker offers a kind: all but the per-mode actions.
pub open spec fn action_offered(k: ActionKind) -> bool {
    !(k is SetDeviceStatePerMode || k is DelayPerMode || k is ActivateScenePerMode)
}

/// Every action kind the picker offers, in the order of their keys.
pub open spec fn offered_action_kinds() -> Seq<ActionKind> {
    seq![
        ActionKind::CallService,
        ActionKind::CancelDelays,
        ActionKind::CancelRuleTimers,
        ActionKind::CaptureDeviceState,
        ActionKind::Comment,
        ActionKind::Conditional,
        ActionKind::Delay,
        ActionKind::ExitRule,
        ActionKind::FadeDevice,
        ActionKind::FireEvent,
        ActionKind::LogMessage,
        ActionKind::Notify,
        ActionKind::Parallel,
        ActionKind::PauseRule,
        ActionKind::PingHost,
        ActionKind::PublishMqtt,
        ActionKind::RepeatCount,
        ActionKind::RepeatUntil,
        ActionKind::RepeatWhile,
        ActionKind::RestoreDeviceState,
        ActionKind::ResumeRule,
        ActionKind::RunRuleActions,
        ActionKind::RunScript,
        ActionKind::SetDeviceState,
        ActionKind::SetHubVariable,
        ActionKind::SetMode,
        ActionKind::SetPrivateBoolean,
        ActionKind::SetVariable,
        ActionKind::StopRuleChain,
        ActionKind::WaitForEvent,
        ActionKind::WaitForExpression,
    ]
}

fn action_kinds() -> (r: Vec<ActionKind>)
    ensures
        r@ == offered_action_kinds(),
{
    vec![
        ActionKind::CallService,
        ActionKind::CancelDelays,
        ActionKind::CancelRuleTimers,
        ActionKind::CaptureDeviceState,
        ActionKind::Comment,
        ActionKind::Conditional,
        ActionKind::Delay,
        ActionKind::ExitRule,
        ActionKind::FadeDevice,
        ActionKind::FireEvent,
        ActionKind::LogMessage,
        ActionKind::Notify,
        ActionKind::Parallel,
        ActionKind::PauseRule,
        ActionKind::PingHost,
        ActionKind::PublishMqtt,
        ActionKind::RepeatCount,
        ActionKind::RepeatUntil,
        ActionKind::RepeatWhile,
        ActionKind::RestoreDeviceState,
        ActionKind::ResumeRule,
        ActionKind::RunRuleActions,
        ActionKind::RunScript,
        ActionKind::SetDeviceState,
        ActionKind::SetHubVariable,
        ActionKind::SetMode,
        ActionKind::SetPrivateBoolean,
        ActionKind::SetVariable,
        ActionKind::StopRuleChain,
        ActionKind::WaitForEvent,
        ActionKind::WaitForExpression,
    ]
}

/// The action kind whose key has the given signature.
spec fn action_by_sig(sig: (int, char, char, char)) -> Option<ActionKind> {
    if sig == (23int, 'a', 'e', 'd') {
        Some(ActionKind::ActivateScenePerMode)
    } else if sig == (12int, 'c', 'e', 'c') {
        Some(ActionKind::CallService)
    } else if sig == (13int, 'c', 's', 'y') {
        Some(ActionKind::CancelDelays)
    } else if sig == (18int, 'c', 's', 'r') {
        Some(ActionKind::CancelRuleTimers)
    } else if sig == (20int, 'c', 'e', 't') {
        Some(ActionKind::CaptureDeviceState)
    } else if sig == (7int, 'c', 't', 'n') {
        Some(ActionKind::Comment)
    } else if sig == (11int, 'c', 'l', 'a') {
        Some(ActionKind::Conditional)
    } else if sig == (5int, 'd', 'y', 'a') {
        Some(ActionKind::Delay)
    } else if sig == (14int, 'd', 'e', 'd') {
        Some(ActionKind::DelayPerMode)
    } else if sig == (9int, 'e', 'e', 'l') {
        Some(ActionKind::ExitRule)
    } else if sig == (11int, 'f', 'e', 'c') {
        Some(ActionKind::FadeDevice)
    } else if sig == (10int, 'f', 't', 'n') {
        Some(ActionKind::FireEvent)
    } else if sig == (11int, 'l', 'e', 'g') {
        Some(ActionKind::LogMessage)
    } else if sig == (6int, 'n', 'y', 'f') {
        Some(ActionKind::Notify)
    } else if sig == (8int, 'p', 'l', 'e') {
        Some(ActionKind::Parallel)
    } else if sig == (10int, 'p', 'e', 'l') {
        Some(ActionKind::PauseRule)
    } else if sig == (9int, 'p', 't', 's') {
        Some(ActionKind::PingHost)
    } else if sig == (12int, 'p', 't', 't') {
        Some(ActionKind::PublishMqtt)
    } else if sig == (12int, 'r', 't', 'n') {
        Some(ActionKind::RepeatCount)
    } else if sig == (12int, 'r', 'l', 'i') {
        Some(ActionKind::RepeatUntil)
    } else if sig == (12int, 'r', 'e', 'l') {
        Some(ActionKind::RepeatWhile)
    } else if sig == (20int, 'r', 'e', 't') {
        Some(ActionKind::RestoreDeviceState)
    } else if sig == (11int, 'r', 'e', 'l') {
        Some(ActionKind::ResumeRule)
    } else if sig == (16int, 'r', 's', 'n') {
        Some(ActionKind::RunRuleActions)
    } else if sig == (10int, 'r', 't', 'p') {
        Some(ActionKind::RunScript)
    } else if sig == (16int, 's', 'e', 't') {
        Some(ActionKind::SetDeviceState)
    } else if sig == (25int, 's', 'e', 'd') {
        Some(ActionKind::SetDeviceStatePerMode)
    } else if sig == (16int, 's', 'e', 'l') {
        Some(ActionKind::SetHubVariable)
    } else if sig == (8int, 's', 'e', 'd') {
        Some(ActionKind::SetMode)
    } else if sig == (19int, 's', 'n', 'a') {
        Some(ActionKind::SetPrivateBoolean)
    } else if sig == (12int, 's', 'e', 'l') {
        Some(ActionKind::SetVariable)
    } else if sig == (15int, 's', 'n', 'i') {
        Some(ActionKind::StopRuleChain)
    } else if sig == (14int, 'w', 't', 'n') {
        Some(ActionKind::WaitForEvent)
    } else if sig == (19int, 'w', 'n', 'o') {
        Some(ActionKind::WaitForExpression)
    } else {
        None
    }
}

proof fn lemma_action_sig(k: ActionKind)
    ensures
        action_by_sig(key_sig(action_key_of(k))) == Some(k),
{
    reveal_strlit("activate_scene_per_mode");
    reveal_strlit("call_service");
    reveal_strlit("cancel_delays");
    reveal_strlit("cancel_rule_timers");
    reveal_strlit("capture_device_state");
    reveal_strlit("comment");
    reveal_strlit("conditional");
    reveal_strlit("delay");
    reveal_strlit("delay_per_mode");
    reveal_strlit("exit_rule");
    reveal_strlit("fade_device");
    reveal_strlit("fire_event");
    reveal_strlit("log_message");
    reveal_strlit("notify");
    reveal_strlit("parallel");
    reveal_strlit("pause_rule");
    reveal_strlit("ping_host");
    reveal_strlit("publish_mqtt");
    reveal_strlit("repeat_count");
    reveal_strlit("repeat_until");
    reveal_strlit("repeat_while");
    reveal_strlit("restore_device_state");
    reveal_strlit("resume_rule");
    reveal_strlit("run_rule_actions");
    reveal_strlit("run_script");
    reveal_strlit("set_device_state");
    reveal_strlit("set_device_state_per_mode");
    reveal_strlit("set_hub_variable");
    reveal_strlit("set_mode");
    reveal_strlit("set_private_boolean");
    reveal_strlit("set_variable");
    reveal_strlit("stop_rule_chain");
    reveal_strlit("wait_for_event");
    reveal_strlit("wait_for_expression");
}

/// Two action kinds with the same key are the same kind.
proof fn lemma_action_keys_distinct(a: ActionKind, b: ActionKind)
    requires
        action_key_of(a) == action_key_of(b),
    ensures
        a == b,
{
    lemma_action_sig(a);
    lemma_action_sig(b);
}

proof fn lemma_action_listed(k: ActionKind)
    requires
        action_offered(k),
    ensures
        offered_action_kinds().contains(k),
{
    match k {
        ActionKind::CallService => assert(offered_action_kinds()[0] == k),
        ActionKind::CancelDelays => assert(offered_action_kinds()[1] == k),
        ActionKind::CancelRuleTimers => assert(offered_action_kinds()[2] == k),
        ActionKind::CaptureDeviceState => assert(offered_action_kinds()[3] == k),
        ActionKind::Comment => assert(offered_action_kinds()[4] == k),
        ActionKind::Conditional => assert(offered_action_kinds()[5] == k),
        ActionKind::Delay => assert(offered_action_kinds()[6] == k),
        ActionKind::ExitRule => assert(offered_action_kinds()[7] == k),
        ActionKind::FadeDevice => assert(offered_action_kinds()[8] == k),
        ActionKind::FireEvent => assert(offered_action_kinds()[9] == k),
        ActionKind::LogMessage => assert(offered_action_kinds()[10] == k),
        ActionKind::Notify => assert(offered_action_kinds()[11] == k),
        ActionKind::Parallel => assert(offered_action_kinds()[12] == k),
        ActionKind::PauseRule => assert(offered_action_kinds()[13] == k),
        ActionKind::PingHost => assert(offered_action_kinds()[14] == k),
        ActionKind::PublishMqtt => assert(offered_action_kinds()[15] == k),
        ActionKind::RepeatCount => assert(offered_action_kinds()[16] == k),
        ActionKind::RepeatUntil => assert(offered_action_kinds()[17] == k),
        ActionKind::RepeatWhile => assert(offered_action_kinds()[18] == k),
        ActionKind::RestoreDeviceState => assert(offered_action_kinds()[19] == k),
        ActionKind::ResumeRule => assert(offered_action_kinds()[20] == k),
        ActionKind::RunRuleActions => assert(offered_action_kinds()[21] == k),
        ActionKind::RunScript => assert(offered_action_kinds()[22] == k),
        ActionKind::SetDeviceState => assert(offered_action_kinds()[23] == k),
        ActionKind::SetHubVariable => assert(offered_action_kinds()[24] == k),
        ActionKind::SetMode => assert(offered_action_kinds()[25] == k),
        ActionKind::SetPrivateBoolean => assert(offered_action_kinds()[26] == k),
        ActionKind::SetVariable => assert(offered_action_kinds()[27] == k),
        ActionKind::StopRuleChain => assert(offered_action_kinds()[28] == k),
        ActionKind::WaitForEvent => assert(offered_action_kinds()[29] == k),
        ActionKind::WaitForExpression => assert(offered_action_kinds()[30] == k),
        _ => {},
    }
}

/// The action a picker key starts: the offered kind whose key it is, else a
/// log message.
pub open spec fn action_kind_of(key: Seq<char>) -> ActionKind {
    if exists|k: ActionKind| action_offered(k) && action_key_of(k) == key {
        choose|k: ActionKind| action_offered(k) && action_key_of(k) == key
    } else {
        ActionKind::LogMessage
    }
}

/// A picker key always starts a kind the picker offers.
pub proof fn lemma_action_kind_of_offered(key: Seq<char>)
    ensures
        action_offered(action_kind_of(key)),
{
}

pub fn default_action_kind(key: &str) -> (r: ActionKind)
    ensures
        r == action_kind_of(key@),
{
    let kinds = action_kinds();
    let mut i: usize = 0;
    while i < kinds.len()
        invariant
            kinds@ == offered_action_kinds(),
            0 <= i <= kinds@.len(),
            forall|j: int| 0 <= j < i ==> action_key_of(#[trigger] kinds@[j]) != key@,
        decreases kinds.len() - i,
    {
        let k = kinds[i];
        if str_eq(key, action_variant_key(k)) {
            proof {
                let c = choose|c: ActionKind| action_offered(c) && action_key_of(c) == key@;
                lemma_action_keys_distinct(c, k);
            }
            return k;
        }
        i = i + 1;
    }
    proof {
        assert forall|k: ActionKind| action_offered(k) implies action_key_of(k) != key@ by {
            lemma_action_listed(k);
            let j = choose|j: int| 0 <= j < kinds@.len() && kinds@[j] == k;
        }
    }
    ActionKind::LogMessage
}
/// The category an action is listed under.
pub open spec fn action_category_of(k: ActionKind) -> Seq<char> {
    match k {
        ActionKind::SetDeviceState | ActionKind::FadeDevice | ActionKind::CaptureDeviceState
        | ActionKind::RestoreDeviceState => "device"@,
        ActionKind::Conditional => "conditional"@,
        ActionKind::Notify => "notify"@,
        ActionKind::SetMode => "mode"@,
        ActionKind::Delay | ActionKind::WaitForEvent | ActionKind::WaitForExpression => "timing"@,
        ActionKind::RunScript => "script"@,
        ActionKind::RunRuleActions | ActionKind::PauseRule | ActionKind::ResumeRule | ActionKind::CancelDelays
        | ActionKind::CancelRuleTimers => "rule_ctrl"@,
        _ => "more"@,
    }
}

pub fn action_category(k: ActionKind) -> (r: &'static str)
    ensures
        r@ == action_category_of(k),
{
    match k {
        ActionKind::SetDeviceState | ActionKind::FadeDevice | ActionKind::CaptureDeviceState
        | ActionKind::RestoreDeviceState => "device",
        ActionKind::Conditional => "conditional",
        ActionKind::Notify => "notify",
        ActionKind::SetMode => "mode",
        ActionKind::Delay | ActionKind::WaitForEvent | ActionKind::WaitForExpression => "timing",
        ActionKind::RunScript => "script",
        ActionKind::RunRuleActions | ActionKind::PauseRule | ActionKind::ResumeRule | ActionKind::CancelDelays
        | ActionKind::CancelRuleTimers => "rule_ctrl",
        _ => "more",
    }
}

/// The action a category button starts with.
pub open spec fn category_default_of(cat: Seq<char>) -> Seq<char> {
    if cat == "conditional"@ {
        "conditional"@
    } else if cat == "device"@ {
        "set_device_state"@
    } else if cat == "mode"@ {
        "set_mode"@
    } else if cat == "notify"@ {
        "notify"@
    } else if cat == "rule_ctrl"@ {
        "run_rule_actions"@
    } else if cat == "script"@ {
        "run_script"@
    } else if cat == "timing"@ {
        "delay"@
    } else {
        "log_message"@
    }
}

pub fn category_default(cat: &str) -> (r: &'static str)
    ensures
        r@ == category_default_of(cat@),
{
    if str_eq(cat, "conditional") {
        "conditional"
    } else if str_eq(cat, "device") {
        "set_device_state"
    } else if str_eq(cat, "mode") {
        "set_mode"
    } else if str_eq(cat, "notify") {
        "notify"
    } else if str_eq(cat, "rule_ctrl") {
        "run_rule_actions"
    } else if str_eq(cat, "script") {
        "run_script"
    } else if str_eq(cat, "timing") {
        "delay"
    } else {
        "log_message"
    }
}

/// The category buttons: key, label, icon.
pub open spec fn action_categories() -> Seq<(Seq<char>, Seq<char>, Seq<char>)> {
    seq![
        ("device"@, "Control device"@, "devices"@),
        ("conditional"@, "IF / ELSE"@, "git-branch"@),
        ("notify"@, "Notify"@, "bell"@),
        ("mode"@, "Set mode"@, "sliders-horizontal"@),
        ("timing"@, "Delay / Wait"@, "clock"@),
        ("script"@, "Script"@, "code"@),
        ("rule_ctrl"@, "Rule control"@, "robot"@),
        ("more"@, "More…"@, "dots-three"@),
    ]
}

pub fn action_category_list() -> (r: Vec<(&'static str, &'static str, &'static str)>)
    ensures
        r@.len() == 8,
        forall|i: int|
            0 <= i < 8 ==> (#[trigger] r@[i]).0@ == action_categories()[i].0 && r@[i].1@
                == action_categories()[i].1 && r@[i].2@ == action_categories()[i].2,
{
    vec![
        ("device", "Control device", "devices"),
        ("conditional", "IF / ELSE", "git-branch"),
        ("notify", "Notify", "bell"),
        ("mode", "Set mode", "sliders-horizontal"),
        ("timing", "Delay / Wait", "clock"),
        ("script", "Script", "code"),
        ("rule_ctrl", "Rule control", "robot"),
        ("more", "More…", "dots-three"),
    ]
}

/// What clicking a category button does: nothing when the action is in it
/// already, else the action becomes the category's default kind.
pub fn category_click(current: ActionKind, cat: &str) -> (r: Option<ActionKind>)
    ensures
        r == if action_category_of(current) == cat@ {
            None
        } else {
            Some(action_kind_of(category_default_of(cat@)))
        },
{
    if str_eq(action_category(current), cat) {
        None
    } else {
        Some(default_action_kind(category_default(cat)))
    }
}

/// Choosing an action's own key gives an action of that kind, for every
/// kind the picker offers.
pub proof fn law_action_key_roundtrip(k: ActionKind)
    requires
        action_offered(k),
    ensures
        action_kind_of(action_key_of(k)) == k,
{
    let c = choose|c: ActionKind| action_offered(c) && action_key_of(c) == action_key_of(k);
    lemma_action_keys_distinct(c, k);
}

/// A category button starts an action of that category.
pub proof fn law_category_default(i: int)
    requires
        0 <= i < 8,
    ensures
        action_category_of(action_kind_of(category_default_of(action_categories()[i].0))) == action_categories()[i].0,
{
    reveal_strlit("device");
    reveal_strlit("conditional");
    reveal_strlit("notify");
    reveal_strlit("mode");
    reveal_strlit("timing");
    reveal_strlit("script");
    reveal_strlit("rule_ctrl");
    reveal_strlit("more");
    reveal_strlit("log_message");
    reveal_strlit("conditional");
    reveal_strlit("set_device_state");
    reveal_strlit("set_mode");
    reveal_strlit("notify");
    reveal_strlit("run_rule_actions");
    reveal_strlit("run_script");
    reveal_strlit("delay");
    if i == 0 {
        lemma_sig_differs("device"@, "conditional"@);
        law_action_key_roundtrip(ActionKind::SetDeviceState);
    }
    if i == 1 {
        law_action_key_roundtrip(ActionKind::Conditional);
    }
    if i == 2 {
        lemma_sig_differs("notify"@, "conditional"@);
        lemma_sig_differs("notify"@, "device"@);
        lemma_sig_differs("notify"@, "mode"@);
        law_action_key_roundtrip(ActionKind::Notify);
    }
    if i == 3 {
        lemma_sig_differs("mode"@, "conditional"@);
        lemma_sig_differs("mode"@, "device"@);
        law_action_key_roundtrip(ActionKind::SetMode);
    }
    if i == 4 {
        lemma_sig_differs("timing"@, "conditional"@);
        lemma_sig_differs("timing"@, "device"@);
        lemma_sig_differs("timing"@, "mode"@);
        lemma_sig_differs("timing"@, "notify"@);
        lemma_sig_differs("timing"@, "rule_ctrl"@);
        lemma_sig_differs("timing"@, "script"@);
        law_action_key_roundtrip(ActionKind::Delay);
    }
    if i == 5 {
        lemma_sig_differs("script"@, "conditional"@);
        lemma_sig_differs("script"@, "device"@);
        lemma_sig_differs("script"@, "mode"@);
        lemma_sig_differs("script"@, "notify"@);
        lemma_sig_differs("script"@, "rule_ctrl"@);
        law_action_key_roundtrip(ActionKind::RunScript);
    }
    if i == 6 {
        lemma_sig_differs("rule_ctrl"@, "conditional"@);
        lemma_sig_differs("rule_ctrl"@, "device"@);
        lemma_sig_differs("rule_ctrl"@, "mode"@);
        lemma_sig_differs("rule_ctrl"@, "notify"@);
        law_action_key_roundtrip(ActionKind::RunRuleActions);
    }
    if i == 7 {
        lemma_sig_differs("more"@, "conditional"@);
        lemma_sig_differs("more"@, "device"@);
        lemma_sig_differs("more"@, "mode"@);
        lemma_sig_differs("more"@, "notify"@);
        lemma_sig_differs("more"@, "rule_ctrl"@);
        lemma_sig_differs("more"@, "script"@);
        lemma_sig_differs("more"@, "timing"@);
        law_action_key_roundtrip(ActionKind::LogMessage);
    }
}

} // verus!
