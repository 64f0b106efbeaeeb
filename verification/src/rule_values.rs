//! Rule conditions and actions as values: what a new condition or action of
//! each kind holds, and the editors' changes to them.
use vstd::prelude::*;
use crate::text::{owned, str_eq};
use crate::json::{Json, JsonV, JsonNumber, NumV, make_object, entries_view};
use crate::rule_kinds::{
    action_offered, lemma_action_kind_of_offered,
    ConditionKind, condition_kind_of, default_condition_kind, ActionKind, action_kind_of, default_action_kind,
    action_category_of, action_category, category_default_of, category_default, trigger_kind_of,
    default_trigger_kind,
};
use crate::rule_options::{
    CompareOp, ChangeKind, LogLevel, VariableOp, ThresholdOp, ButtonEventType, SunEventType, PeriodicUnit,
};
use crate::rules::TriggerKind;
use crate::rule_editor::{swapped, move_up, move_down};

verus! {

// ── Conditions ───────────────────────────────────────────────────────────────
/// A rule condition. Times of day are seconds after midnight.
pub enum ConditionValue {
    DeviceState { device_id: String, attribute: String, op: CompareOp, value: Json },
    TimeWindow { start_secs: u32, end_secs: u32 },
    ScriptExpression { script: String },
    TimeElapsed { device_id: String, attribute: String, duration_secs: u64 },
    DeviceLastChange {
        device_id: String,
        kind: Option<ChangeKind>,
        source: Option<String>,
        actor_id: Option<String>,
        actor_name: Option<String>,
    },
    Not { condition: Box<ConditionValue> },
    And { conditions: Vec<ConditionValue> },
    Or { conditions: Vec<ConditionValue> },
    Xor { conditions: Vec<ConditionValue> },
    PrivateBooleanIs { name: String, value: bool },
    HubVariable { name: String, op: CompareOp, value: Json },
    ModeIs { mode_id: String, on: bool },
    CalendarActive { calendar_id: Option<String>, title_contains: Option<String> },
}

/// The kind of a condition.
pub open spec fn condition_kind_spec(c: ConditionValue) -> ConditionKind {
    match c {
        ConditionValue::DeviceState { .. } => ConditionKind::DeviceState,
        ConditionValue::TimeWindow { .. } => ConditionKind::TimeWindow,
        ConditionValue::ScriptExpression { .. } => ConditionKind::ScriptExpression,
        ConditionValue::TimeElapsed { .. } => ConditionKind::TimeElapsed,
        ConditionValue::DeviceLastChange { .. } => ConditionKind::DeviceLastChange,
        ConditionValue::Not { .. } => ConditionKind::Not,
        ConditionValue::And { .. } => ConditionKind::And,
        ConditionValue::Or { .. } => ConditionKind::Or,
        ConditionValue::Xor { .. } => ConditionKind::Xor,
        ConditionValue::PrivateBooleanIs { .. } => ConditionKind::PrivateBooleanIs,
        ConditionValue::HubVariable { .. } => ConditionKind::HubVariable,
        ConditionValue::ModeIs { .. } => ConditionKind::ModeIs,
        ConditionValue::CalendarActive { .. } => ConditionKind::CalendarActive,
    }
}

pub fn condition_kind(c: &ConditionValue) -> (r: ConditionKind)
    ensures
        r == condition_kind_spec(*c),
{
    match c {
        ConditionValue::DeviceState { .. } => ConditionKind::DeviceState,
        ConditionValue::TimeWindow { .. } => ConditionKind::TimeWindow,
        ConditionValue::ScriptExpression { .. } => ConditionKind::ScriptExpression,
        ConditionValue::TimeElapsed { .. } => ConditionKind::TimeElapsed,
        ConditionValue::DeviceLastChange { .. } => ConditionKind::DeviceLastChange,
        ConditionValue::Not { .. } => ConditionKind::Not,
        ConditionValue::And { .. } => ConditionKind::And,
        ConditionValue::Or { .. } => ConditionKind::Or,
        ConditionValue::Xor { .. } => ConditionKind::Xor,
        ConditionValue::PrivateBooleanIs { .. } => ConditionKind::PrivateBooleanIs,
        ConditionValue::HubVariable { .. } => ConditionKind::HubVariable,
        ConditionValue::ModeIs { .. } => ConditionKind::ModeIs,
        ConditionValue::CalendarActive { .. } => ConditionKind::CalendarActive,
    }
}

/// Whether `c` is the condition a new condition of kind `k` starts as: a
/// device state of `on` equal to `true`, the window 08:00–22:00, a minute
/// elapsed, `not` of a new device state, empty groups, a private boolean
/// and a mode that are on, a hub variable equal to `""`, and every other
/// field empty or absent.
pub open spec fn is_default_condition(c: ConditionValue, k: ConditionKind) -> bool
    decreases c,
{
    &&& condition_kind_spec(c) == k
    &&& match c {
        ConditionValue::DeviceState { device_id, attribute, op, value } => device_id@.len() == 0 && attribute@
            == "on"@ && op == CompareOp::Eq && value@ == JsonV::Bool(true),
        ConditionValue::TimeWindow { start_secs, end_secs } => start_secs == 8 * 3600 && end_secs == 22 * 3600,
        ConditionValue::ScriptExpression { script } => script@.len() == 0,
        ConditionValue::TimeElapsed { device_id, attribute, duration_secs } => device_id@.len() == 0
            && attribute@.len() == 0 && duration_secs == 60,
        ConditionValue::DeviceLastChange { device_id, kind, source, actor_id, actor_name } => device_id@.len()
            == 0 && kind is None && source is None && actor_id is None && actor_name is None,
        ConditionValue::Not { condition } => is_default_condition(*condition, ConditionKind::DeviceState),
        ConditionValue::And { conditions } => conditions@.len() == 0,
        ConditionValue::Or { conditions } => conditions@.len() == 0,
        ConditionValue::Xor { conditions } => conditions@.len() == 0,
        ConditionValue::PrivateBooleanIs { name, value } => name@.len() == 0 && value,
        ConditionValue::HubVariable { name, op, value } => name@.len() == 0 && op == CompareOp::Eq && value@
            == JsonV::Str(Seq::empty()),
        ConditionValue::ModeIs { mode_id, on } => mode_id@.len() == 0 && on,
        ConditionValue::CalendarActive { calendar_id, title_contains } => calendar_id is None
            && title_contains is None,
    }
}

fn empty() -> (r: String)
    ensures
        r@.len() == 0,
{
    let r = owned("");
    proof {
        reveal_strlit("");
    }
    r
}

fn new_device_state() -> (r: ConditionValue)
    ensures
        is_default_condition(r, ConditionKind::DeviceState),
{
    let r = ConditionValue::DeviceState {
        device_id: empty(),
        attribute: owned("on"),
        op: CompareOp::Eq,
        value: Json::Bool(true),
    };
    r
}

/// A new condition of a kind.
pub fn condition_of_kind(k: ConditionKind) -> (r: ConditionValue)
    ensures
        is_default_condition(r, k),
{
    match k {
        ConditionKind::DeviceState => new_device_state(),
        ConditionKind::TimeWindow => ConditionValue::TimeWindow { start_secs: 8 * 3600, end_secs: 22 * 3600 },
        ConditionKind::ScriptExpression => ConditionValue::ScriptExpression { script: empty() },
        ConditionKind::TimeElapsed => ConditionValue::TimeElapsed {
            device_id: empty(),
            attribute: empty(),
            duration_secs: 60,
        },
        ConditionKind::DeviceLastChange => ConditionValue::DeviceLastChange {
            device_id: empty(),
            kind: None,
            source: None,
            actor_id: None,
            actor_name: None,
        },
        ConditionKind::Not => {
            let d = new_device_state();
            let r = ConditionValue::Not { condition: Box::new(d) };
            assert(is_default_condition(d, ConditionKind::DeviceState));
            r
        },
        ConditionKind::And => ConditionValue::And { conditions: Vec::new() },
        ConditionKind::Or => ConditionValue::Or { conditions: Vec::new() },
        ConditionKind::Xor => ConditionValue::Xor { conditions: Vec::new() },
        ConditionKind::PrivateBooleanIs => ConditionValue::PrivateBooleanIs { name: empty(), value: true },
        ConditionKind::HubVariable => {
            let e = empty();
            assert(e@ =~= Seq::<char>::empty());
            let v = Json::Str(e);
            ConditionValue::HubVariable { name: empty(), op: CompareOp::Eq, value: v }
        },
        ConditionKind::ModeIs => ConditionValue::ModeIs { mode_id: empty(), on: true },
        ConditionKind::CalendarActive => ConditionValue::CalendarActive { calendar_id: None, title_contains: None },
    }
}

/// The condition the type picker starts for a key (see `condition_kind_of`).
pub fn default_condition(key: &str) -> (r: ConditionValue)
    ensures
        is_default_condition(r, condition_kind_of(key@)),
{
    condition_of_kind(default_condition_kind(key))
}

/// A change to a group's condition list.
pub enum GroupEdit {
    MoveUp(usize),
    MoveDown(usize),
    Remove(usize),
    /// "+ Add condition": a new device state condition joins the end.
    Add,
}

/// Whether `after` is the list `before` after an edit: moves swap with the
/// neighbour, where there is one; a remove in range drops the item; an
/// add appends a new device state condition.
pub open spec fn group_edited(before: Seq<ConditionValue>, after: Seq<ConditionValue>, e: GroupEdit) -> bool {
    match e {
        GroupEdit::MoveUp(i) => after == if 0 < i < before.len() {
            swapped(before, i - 1, i as int)
        } else {
            before
        },
        GroupEdit::MoveDown(i) => after == if i + 1 < before.len() {
            swapped(before, i as int, i + 1)
        } else {
            before
        },
        GroupEdit::Remove(i) => after == if i < before.len() {
            before.remove(i as int)
        } else {
            before
        },
        GroupEdit::Add => after.len() == before.len() + 1 && after.drop_last() == before && is_default_condition(
            after.last(),
            ConditionKind::DeviceState,
        ),
    }
}

/// An edit of a condition list (the rule's, or a group's).
pub fn edit_conditions(cs: &mut Vec<ConditionValue>, e: GroupEdit)
    ensures
        group_edited(old(cs)@, final(cs)@, e),
{
    match e {
        GroupEdit::MoveUp(i) => move_up(cs, i),
        GroupEdit::MoveDown(i) => move_down(cs, i),
        GroupEdit::Remove(i) => {
            if i < cs.len() {
                cs.remove(i);
            }
        },
        GroupEdit::Add => {
            let ghost before = cs@;
            cs.push(new_device_state());
            assert(cs@.drop_last() =~= before);
        },
    }
}

/// An edit of an `and`, `or` or `xor` condition's list: the group keeps its
/// variant and its list changes as `group_edited` says. Any other condition
/// is left as it is.
pub fn edit_group(c: &mut ConditionValue, e: GroupEdit)
    ensures
        match *old(c) {
            ConditionValue::And { conditions } => *final(c) matches ConditionValue::And { conditions: cs }
                && group_edited(conditions@, cs@, e),
            ConditionValue::Or { conditions } => *final(c) matches ConditionValue::Or { conditions: cs }
                && group_edited(conditions@, cs@, e),
            ConditionValue::Xor { conditions } => *final(c) matches ConditionValue::Xor { conditions: cs }
                && group_edited(conditions@, cs@, e),
            _ => *final(c) == *old(c),
        },
{
    match c {
        ConditionValue::And { conditions } => edit_conditions(conditions, e),
        ConditionValue::Or { conditions } => edit_conditions(conditions, e),
        ConditionValue::Xor { conditions } => edit_conditions(conditions, e),
        _ => {},
    }
}

// ── Actions ──────────────────────────────────────────────────────────────────
/// How a `set_mode` action switches its mode.
#[derive(PartialEq, Eq, Structural, Clone, Copy, Debug)]
pub enum ModeCommand {
    On,
    Off,
    Toggle,
}

/// An `else if` branch of a conditional action.
pub struct ConditionalBranch {
    pub condition: String,
    pub actions: Vec<ActionValue>,
}

/// A rule action. Rule ids are UUIDs as their 128-bit values.
pub enum ActionValue {
    SetDeviceState { device_id: String, state: Json, track_event_value: bool },
    PublishMqtt { topic: String, payload: String, retain: bool },
    CallService { url: String, method: String, body: Json, timeout_ms: Option<u64>, retries: Option<u64>, response_event: Option<String> },
    FireEvent { event_type: String, payload: Json },
    RunScript { script: String },
    Notify { channel: String, message: String, title: Option<String> },
    Delay { duration_secs: u64, cancelable: bool, cancel_key: Option<String> },
    Parallel { actions: Vec<ActionValue> },
    RepeatUntil { condition: String, actions: Vec<ActionValue>, max_iterations: Option<u64>, interval_ms: Option<u64> },
    RepeatWhile { condition: String, actions: Vec<ActionValue>, max_iterations: Option<u64>, interval_ms: Option<u64> },
    RepeatCount { count: u64, actions: Vec<ActionValue>, interval_ms: Option<u64> },
    Conditional { condition: String, then_actions: Vec<ActionValue>, else_if: Vec<ConditionalBranch>, else_actions: Vec<ActionValue> },
    StopRuleChain,
    ExitRule,
    Comment { text: String },
    WaitForEvent { event_type: Option<String>, device_id: Option<String>, attribute: Option<String>, timeout_ms: Option<u64> },
    WaitForExpression { expression: String, poll_interval_ms: Option<u64>, timeout_ms: Option<u64>, hold_duration_ms: Option<u64> },
    SetVariable { name: String, value: Json, op: Option<VariableOp> },
    RunRuleActions { rule_id: u128 },
    PauseRule { rule_id: u128 },
    ResumeRule { rule_id: u128 },
    CancelDelays { key: Option<String> },
    CancelRuleTimers { rule_id: Option<u128> },
    SetPrivateBoolean { name: String, value: bool },
    LogMessage { message: String, level: Option<LogLevel> },
    SetDeviceStatePerMode { device_id: String, modes: Vec<(String, Json)>, default_state: Option<Json> },
    PingHost { host: String, count: Option<u64>, timeout_ms: Option<u64>, then_actions: Vec<ActionValue>, else_actions: Vec<ActionValue>, response_event: Option<String> },
    CaptureDeviceState { key: String, device_ids: Vec<String> },
    RestoreDeviceState { key: String },
    DelayPerMode { modes: Vec<(String, u64)>, default_secs: Option<u64> },
    SetHubVariable { name: String, value: Json, op: Option<VariableOp> },
    ActivateScenePerMode { modes: Vec<(String, u128)>, default_scene_id: Option<u128> },
    FadeDevice { device_id: String, target: Json, duration_secs: u64, steps: Option<u64> },
    SetMode { mode_id: String, command: ModeCommand },
}

/// The kind of an action.
pub open spec fn action_kind_spec(a: ActionValue) -> ActionKind {
    match a {
        ActionValue::SetDeviceState { .. } => ActionKind::SetDeviceState,
        ActionValue::PublishMqtt { .. } => ActionKind::PublishMqtt,
        ActionValue::CallService { .. } => ActionKind::CallService,
        ActionValue::FireEvent { .. } => ActionKind::FireEvent,
        ActionValue::RunScript { .. } => ActionKind::RunScript,
        ActionValue::Notify { .. } => ActionKind::Notify,
        ActionValue::Delay { .. } => ActionKind::Delay,
        ActionValue::Parallel { .. } => ActionKind::Parallel,
        ActionValue::RepeatUntil { .. } => ActionKind::RepeatUntil,
        ActionValue::RepeatWhile { .. } => ActionKind::RepeatWhile,
        ActionValue::RepeatCount { .. } => ActionKind::RepeatCount,
        ActionValue::Conditional { .. } => ActionKind::Conditional,
        ActionValue::StopRuleChain => ActionKind::StopRuleChain,
        ActionValue::ExitRule => ActionKind::ExitRule,
        ActionValue::Comment { .. } => ActionKind::Comment,
        ActionValue::WaitForEvent { .. } => ActionKind::WaitForEvent,
        ActionValue::WaitForExpression { .. } => ActionKind::WaitForExpression,
        ActionValue::SetVariable { .. } => ActionKind::SetVariable,
        ActionValue::RunRuleActions { .. } => ActionKind::RunRuleActions,
        ActionValue::PauseRule { .. } => ActionKind::PauseRule,
        ActionValue::ResumeRule { .. } => ActionKind::ResumeRule,
        ActionValue::CancelDelays { .. } => ActionKind::CancelDelays,
        ActionValue::CancelRuleTimers { .. } => ActionKind::CancelRuleTimers,
        ActionValue::SetPrivateBoolean { .. } => ActionKind::SetPrivateBoolean,
        ActionValue::LogMessage { .. } => ActionKind::LogMessage,
        ActionValue::SetDeviceStatePerMode { .. } => ActionKind::SetDeviceStatePerMode,
        ActionValue::PingHost { .. } => ActionKind::PingHost,
        ActionValue::CaptureDeviceState { .. } => ActionKind::CaptureDeviceState,
        ActionValue::RestoreDeviceState { .. } => ActionKind::RestoreDeviceState,
        ActionValue::DelayPerMode { .. } => ActionKind::DelayPerMode,
        ActionValue::SetHubVariable { .. } => ActionKind::SetHubVariable,
        ActionValue::ActivateScenePerMode { .. } => ActionKind::ActivateScenePerMode,
        ActionValue::FadeDevice { .. } => ActionKind::FadeDevice,
        ActionValue::SetMode { .. } => ActionKind::SetMode,
    }
}

pub fn action_kind(a: &ActionValue) -> (r: ActionKind)
    ensures
        r == action_kind_spec(*a),
{
    match a {
        ActionValue::SetDeviceState { .. } => ActionKind::SetDeviceState,
        ActionValue::PublishMqtt { .. } => ActionKind::PublishMqtt,
        ActionValue::CallService { .. } => ActionKind::CallService,
        ActionValue::FireEvent { .. } => ActionKind::FireEvent,
        ActionValue::RunScript { .. } => ActionKind::RunScript,
        ActionValue::Notify { .. } => ActionKind::Notify,
        ActionValue::Delay { .. } => ActionKind::Delay,
        ActionValue::Parallel { .. } => ActionKind::Parallel,
        ActionValue::RepeatUntil { .. } => ActionKind::RepeatUntil,
        ActionValue::RepeatWhile { .. } => ActionKind::RepeatWhile,
        ActionValue::RepeatCount { .. } => ActionKind::RepeatCount,
        ActionValue::Conditional { .. } => ActionKind::Conditional,
        ActionValue::StopRuleChain => ActionKind::StopRuleChain,
        ActionValue::ExitRule => ActionKind::ExitRule,
        ActionValue::Comment { .. } => ActionKind::Comment,
        ActionValue::WaitForEvent { .. } => ActionKind::WaitForEvent,
        ActionValue::WaitForExpression { .. } => ActionKind::WaitForExpression,
        ActionValue::SetVariable { .. } => ActionKind::SetVariable,
        ActionValue::RunRuleActions { .. } => ActionKind::RunRuleActions,
        ActionValue::PauseRule { .. } => ActionKind::PauseRule,
        ActionValue::ResumeRule { .. } => ActionKind::ResumeRule,
        ActionValue::CancelDelays { .. } => ActionKind::CancelDelays,
        ActionValue::CancelRuleTimers { .. } => ActionKind::CancelRuleTimers,
        ActionValue::SetPrivateBoolean { .. } => ActionKind::SetPrivateBoolean,
        ActionValue::LogMessage { .. } => ActionKind::LogMessage,
        ActionValue::SetDeviceStatePerMode { .. } => ActionKind::SetDeviceStatePerMode,
        ActionValue::PingHost { .. } => ActionKind::PingHost,
        ActionValue::CaptureDeviceState { .. } => ActionKind::CaptureDeviceState,
        ActionValue::RestoreDeviceState { .. } => ActionKind::RestoreDeviceState,
        ActionValue::DelayPerMode { .. } => ActionKind::DelayPerMode,
        ActionValue::SetHubVariable { .. } => ActionKind::SetHubVariable,
        ActionValue::ActivateScenePerMode { .. } => ActionKind::ActivateScenePerMode,
        ActionValue::FadeDevice { .. } => ActionKind::FadeDevice,
        ActionValue::SetMode { .. } => ActionKind::SetMode,
    }
}

/// Whether `a` is the action a new action of the offered kind `k` starts
/// as: text fields empty, JSON bodies, payloads and targets `{}`, variable
/// values `""`, optional fields absent, lists empty, and these set: a
/// `POST` call, a five-second delay, at most ten repeats, three counted
/// repeats, the nil rule id, a private boolean set to true, a thirty-second
/// fade, and a mode switched on.
pub open spec fn is_default_action(a: ActionValue, k: ActionKind) -> bool {
    &&& action_kind_spec(a) == k
    &&& match a {
        ActionValue::SetDeviceState { device_id, state, track_event_value } => device_id@.len() == 0 && state@ == JsonV::Obj(Seq::empty()) && !track_event_value,
        ActionValue::PublishMqtt { topic, payload, retain } => topic@.len() == 0 && payload@.len() == 0 && !retain,
        ActionValue::CallService { url, method, body, timeout_ms, retries, response_event } => url@.len() == 0 && method@ == "POST"@ && body@ == JsonV::Obj(Seq::empty()) && timeout_ms is None && retries is None && response_event is None,
        ActionValue::FireEvent { event_type, payload } => event_type@.len() == 0 && payload@ == JsonV::Obj(Seq::empty()),
        ActionValue::RunScript { script } => script@.len() == 0,
        ActionValue::Notify { channel, message, title } => channel@.len() == 0 && message@.len() == 0 && title is None,
        ActionValue::Delay { duration_secs, cancelable, cancel_key } => duration_secs == 5 && !cancelable && cancel_key is None,
        ActionValue::Parallel { actions } => actions@.len() == 0,
        ActionValue::RepeatUntil { condition, actions, max_iterations, interval_ms } => condition@.len() == 0 && actions@.len() == 0 && max_iterations == Some(10u64) && interval_ms is None,
        ActionValue::RepeatWhile { condition, actions, max_iterations, interval_ms } => condition@.len() == 0 && actions@.len() == 0 && max_iterations == Some(10u64) && interval_ms is None,
        ActionValue::RepeatCount { count, actions, interval_ms } => count == 3 && actions@.len() == 0 && interval_ms is None,
        ActionValue::Conditional { condition, then_actions, else_if, else_actions } => condition@.len() == 0 && then_actions@.len() == 0 && else_if@.len() == 0 && else_actions@.len() == 0,
        ActionValue::StopRuleChain => true,
        ActionValue::ExitRule => true,
        ActionValue::Comment { text } => text@.len() == 0,
        ActionValue::WaitForEvent { event_type, device_id, attribute, timeout_ms } => event_type is None && device_id is None && attribute is None && timeout_ms is None,
        ActionValue::WaitForExpression { expression, poll_interval_ms, timeout_ms, hold_duration_ms } => expression@.len() == 0 && poll_interval_ms is None && timeout_ms is None && hold_duration_ms is None,
        ActionValue::SetVariable { name, value, op } => name@.len() == 0 && value@ == JsonV::Str(Seq::empty()) && op is None,
        ActionValue::RunRuleActions { rule_id } => rule_id == 0,
        ActionValue::PauseRule { rule_id } => rule_id == 0,
        ActionValue::ResumeRule { rule_id } => rule_id == 0,
        ActionValue::CancelDelays { key } => key is None,
        ActionValue::CancelRuleTimers { rule_id } => rule_id is None,
        ActionValue::SetPrivateBoolean { name, value } => name@.len() == 0 && value,
        ActionValue::LogMessage { message, level } => message@.len() == 0 && level is None,
        ActionValue::SetDeviceStatePerMode { .. } => false,
        ActionValue::PingHost { host, count, timeout_ms, then_actions, else_actions, response_event } => host@.len() == 0 && count is None && timeout_ms is None && then_actions@.len() == 0 && else_actions@.len() == 0 && response_event is None,
        ActionValue::CaptureDeviceState { key, device_ids } => key@.len() == 0 && device_ids@.len() == 0,
        ActionValue::RestoreDeviceState { key } => key@.len() == 0,
        ActionValue::DelayPerMode { .. } => false,
        ActionValue::SetHubVariable { name, value, op } => name@.len() == 0 && value@ == JsonV::Str(Seq::empty()) && op is None,
        ActionValue::ActivateScenePerMode { .. } => false,
        ActionValue::FadeDevice { device_id, target, duration_secs, steps } => device_id@.len() == 0 && target@ == JsonV::Obj(Seq::empty()) && duration_secs == 30 && steps is None,
        ActionValue::SetMode { mode_id, command } => mode_id@.len() == 0 && command == ModeCommand::On,
    }
}

/// A new action of an offered kind.
pub fn action_of_kind(k: ActionKind) -> (r: ActionValue)
    requires
        action_offered(k),
    ensures
        is_default_action(r, k),
{
    match k {
        ActionKind::SetDeviceState => ActionValue::SetDeviceState { device_id: empty(), state: empty_object(), track_event_value: false },
        ActionKind::PublishMqtt => ActionValue::PublishMqtt { topic: empty(), payload: empty(), retain: false },
        ActionKind::CallService => ActionValue::CallService { url: empty(), method: owned("POST"), body: empty_object(), timeout_ms: None, retries: None, response_event: None },
        ActionKind::FireEvent => ActionValue::FireEvent { event_type: empty(), payload: empty_object() },
        ActionKind::RunScript => ActionValue::RunScript { script: empty() },
        ActionKind::Notify => ActionValue::Notify { channel: empty(), message: empty(), title: None },
        ActionKind::Delay => ActionValue::Delay { duration_secs: 5, cancelable: false, cancel_key: None },
        ActionKind::Parallel => ActionValue::Parallel { actions: Vec::new() },
        ActionKind::RepeatUntil => ActionValue::RepeatUntil { condition: empty(), actions: Vec::new(), max_iterations: Some(10), interval_ms: None },
        ActionKind::RepeatWhile => ActionValue::RepeatWhile { condition: empty(), actions: Vec::new(), max_iterations: Some(10), interval_ms: None },
        ActionKind::RepeatCount => ActionValue::RepeatCount { count: 3, actions: Vec::new(), interval_ms: None },
        ActionKind::Conditional => ActionValue::Conditional { condition: empty(), then_actions: Vec::new(), else_if: Vec::new(), else_actions: Vec::new() },
        ActionKind::StopRuleChain => ActionValue::StopRuleChain,
        ActionKind::ExitRule => ActionValue::ExitRule,
        ActionKind::Comment => ActionValue::Comment { text: empty() },
        ActionKind::WaitForEvent => ActionValue::WaitForEvent { event_type: None, device_id: None, attribute: None, timeout_ms: None },
        ActionKind::WaitForExpression => ActionValue::WaitForExpression { expression: empty(), poll_interval_ms: None, timeout_ms: None, hold_duration_ms: None },
        ActionKind::SetVariable => ActionValue::SetVariable { name: empty(), value: empty_text_value(), op: None },
        ActionKind::RunRuleActions => ActionValue::RunRuleActions { rule_id: 0 },
        ActionKind::PauseRule => ActionValue::PauseRule { rule_id: 0 },
        ActionKind::ResumeRule => ActionValue::ResumeRule { rule_id: 0 },
        ActionKind::CancelDelays => ActionValue::CancelDelays { key: None },
        ActionKind::CancelRuleTimers => ActionValue::CancelRuleTimers { rule_id: None },
        ActionKind::SetPrivateBoolean => ActionValue::SetPrivateBoolean { name: empty(), value: true },
        ActionKind::LogMessage => ActionValue::LogMessage { message: empty(), level: None },
        ActionKind::SetDeviceStatePerMode => {
            assert(false);
            ActionValue::LogMessage { message: empty(), level: None }
        },
        ActionKind::PingHost => ActionValue::PingHost { host: empty(), count: None, timeout_ms: None, then_actions: Vec::new(), else_actions: Vec::new(), response_event: None },
        ActionKind::CaptureDeviceState => ActionValue::CaptureDeviceState { key: empty(), device_ids: Vec::new() },
        ActionKind::RestoreDeviceState => ActionValue::RestoreDeviceState { key: empty() },
        ActionKind::DelayPerMode => {
            assert(false);
            ActionValue::LogMessage { message: empty(), level: None }
        },
        ActionKind::SetHubVariable => ActionValue::SetHubVariable { name: empty(), value: empty_text_value(), op: None },
        ActionKind::ActivateScenePerMode => {
            assert(false);
            ActionValue::LogMessage { message: empty(), level: None }
        },
        ActionKind::FadeDevice => ActionValue::FadeDevice { device_id: empty(), target: empty_object(), duration_secs: 30, steps: None },
        ActionKind::SetMode => ActionValue::SetMode { mode_id: empty(), command: ModeCommand::On },
    }
}

/// A new `{}` state.
pub(crate) fn empty_state() -> (r: Json)
    ensures
        r@ == JsonV::Obj(Seq::empty()),
{
    empty_object()
}

fn empty_object() -> (r: Json)
    ensures
        r@ == JsonV::Obj(Seq::empty()),
{
    let e: Vec<(String, Json)> = Vec::new();
    assert(entries_view(e@) =~= Seq::<(Seq<char>, JsonV)>::empty());
    make_object(e)
}

fn empty_text_value() -> (r: Json)
    ensures
        r@ == JsonV::Str(Seq::empty()),
{
    let e = empty();
    assert(e@ =~= Seq::<char>::empty());
    Json::Str(e)
}

/// The action the type picker starts for a key (see `action_kind_of`).
pub fn default_action(key: &str) -> (r: ActionValue)
    ensures
        is_default_action(r, action_kind_of(key@)),
{
    let k = default_action_kind(key);
    proof {
        lemma_action_kind_of_offered(key@);
    }
    action_of_kind(k)
}

/// A category button: nothing where the action is of that category already,
/// else a new action of the category's default kind.
pub fn category_click_action(current: &ActionValue, cat: &str) -> (r: Option<ActionValue>)
    ensures
        match r {
            None => action_category_of(action_kind_spec(*current)) == cat@,
            Some(a) => action_category_of(action_kind_spec(*current)) != cat@ && is_default_action(
                a,
                action_kind_of(category_default_of(cat@)),
            ),
        },
{
    let k = action_kind(current);
    if str_eq(action_category(k), cat) {
        None
    } else {
        Some(default_action(category_default(cat)))
    }
}

// ── The device state builder ─────────────────────────────────────────────────
/// Whether `after` is `before` with the state it sends set to `st`: the
/// state of a `set_device_state`, the target of a `fade_device`, every other
/// field kept; other actions are left as they are.
pub open spec fn state_set(before: ActionValue, after: ActionValue, st: JsonV) -> bool {
    match before {
        ActionValue::SetDeviceState { device_id, state, track_event_value } => after matches ActionValue::SetDeviceState {
            device_id: d,
            state: s,
            track_event_value: t,
        } && d == device_id && t == track_event_value && s@ == st,
        ActionValue::FadeDevice { device_id, target, duration_secs, steps } => after matches ActionValue::FadeDevice {
            device_id: d,
            target: s,
            duration_secs: u,
            steps: p,
        } && d == device_id && u == duration_secs && p == steps && s@ == st,
        _ => after == before,
    }
}

fn put_state(a: &mut ActionValue, v: Json)
    ensures
        state_set(*old(a), *final(a), v@),
{
    match a {
        ActionValue::SetDeviceState { state, .. } => {
            *state = v;
        },
        ActionValue::FadeDevice { target, .. } => {
            *target = v;
        },
        _ => {},
    }
}

/// Choosing a command in the builder: the action sends the state of that
/// command for the device's attributes (see `command_state_of`).
pub fn select_command(a: &mut ActionValue, cmd: &str, attrs: &Json)
    ensures
        state_set(*old(a), *final(a), crate::device_commands::command_state_of(cmd@, attrs@)),
{
    put_state(a, crate::device_commands::command_to_state(cmd, attrs));
}

/// Typing the builder's JSON text: blank text sends `{}`, text that reads
/// as JSON (trimmed) sends that value, and other text changes nothing and
/// answers `false` (the builder then shows a parse error).
pub fn set_state_text(a: &mut ActionValue, raw: &str) -> (ok: bool)
    ensures
        ok == (crate::text::trimmed(raw@).len() == 0 || crate::json::json_text_value(
            crate::text::trimmed(raw@),
        ) is Some),
        crate::text::trimmed(raw@).len() == 0 ==> state_set(*old(a), *final(a), JsonV::Obj(Seq::empty())),
        crate::text::trimmed(raw@).len() > 0 && crate::json::json_text_value(crate::text::trimmed(raw@)) is Some
            ==> state_set(*old(a), *final(a), crate::json::json_text_value(crate::text::trimmed(raw@))->0),
        !ok ==> *final(a) == *old(a),
{
    let t = crate::text::trim(raw);
    if t.as_str().unicode_len() == 0 {
        put_state(a, empty_object());
        return true;
    }
    match crate::json::parse_json(t.as_str()) {
        Some(v) => {
            put_state(a, v);
            true
        },
        None => false,
    }
}

// ── Triggers ─────────────────────────────────────────────────────────────────
/// A rule trigger. Times of day are seconds after midnight; days are
/// numbered from Monday, 0; a threshold is a JSON number.
pub enum TriggerValue {
    DeviceStateChanged { device_id: String, device_ids: Vec<String>, attribute: Option<String>, to: Option<Json>, from: Option<Json>, not_from: Option<Json>, not_to: Option<Json>, for_duration_secs: Option<u64>, change_kind: Option<ChangeKind>, change_source: Option<String> },
    DeviceAvailabilityChanged { device_id: String, to: Option<bool>, for_duration_secs: Option<u64> },
    ButtonEvent { device_id: String, button_number: Option<u64>, event: ButtonEventType },
    NumericThreshold { device_id: String, attribute: String, op: ThresholdOp, value: Json, for_duration_secs: Option<u64> },
    TimeOfDay { time_secs: u32, days: Vec<u8> },
    SunEvent { event: SunEventType, offset_minutes: i32 },
    Cron { expression: String },
    Periodic { every_n: u64, unit: PeriodicUnit },
    CalendarEvent { calendar_id: Option<String>, title_contains: Option<String>, offset_minutes: i64 },
    CustomEvent { event_type: String },
    SystemStarted,
    HubVariableChanged { name: Option<String> },
    ModeChanged { mode_id: Option<String>, to: Option<bool> },
    WebhookReceived { path: String },
    ManualTrigger,
    MqttMessage { topic_pattern: String, payload: Option<String>, value_path: Option<String>, value_op: Option<CompareOp>, value_cmp: Option<Json> },
    DeviceBatteryLow { device_id: Option<String> },
    DeviceBatteryRecovered { device_id: Option<String> },
}

/// The kind of a trigger.
pub open spec fn trigger_kind_spec(t: TriggerValue) -> TriggerKind {
    match t {
        TriggerValue::DeviceStateChanged { .. } => TriggerKind::DeviceStateChanged,
        TriggerValue::DeviceAvailabilityChanged { .. } => TriggerKind::DeviceAvailabilityChanged,
        TriggerValue::ButtonEvent { .. } => TriggerKind::ButtonEvent,
        TriggerValue::NumericThreshold { .. } => TriggerKind::NumericThreshold,
        TriggerValue::TimeOfDay { .. } => TriggerKind::TimeOfDay,
        TriggerValue::SunEvent { .. } => TriggerKind::SunEvent,
        TriggerValue::Cron { .. } => TriggerKind::Cron,
        TriggerValue::Periodic { .. } => TriggerKind::Periodic,
        TriggerValue::CalendarEvent { .. } => TriggerKind::CalendarEvent,
        TriggerValue::CustomEvent { .. } => TriggerKind::CustomEvent,
        TriggerValue::SystemStarted => TriggerKind::SystemStarted,
        TriggerValue::HubVariableChanged { .. } => TriggerKind::HubVariableChanged,
        TriggerValue::ModeChanged { .. } => TriggerKind::ModeChanged,
        TriggerValue::WebhookReceived { .. } => TriggerKind::WebhookReceived,
        TriggerValue::ManualTrigger => TriggerKind::ManualTrigger,
        TriggerValue::MqttMessage { .. } => TriggerKind::MqttMessage,
        TriggerValue::DeviceBatteryLow { .. } => TriggerKind::DeviceBatteryLow,
        TriggerValue::DeviceBatteryRecovered { .. } => TriggerKind::DeviceBatteryRecovered,
    }
}

pub fn trigger_kind(t: &TriggerValue) -> (r: TriggerKind)
    ensures
        r == trigger_kind_spec(*t),
{
    match t {
        TriggerValue::DeviceStateChanged { .. } => TriggerKind::DeviceStateChanged,
        TriggerValue::DeviceAvailabilityChanged { .. } => TriggerKind::DeviceAvailabilityChanged,
        TriggerValue::ButtonEvent { .. } => TriggerKind::ButtonEvent,
        TriggerValue::NumericThreshold { .. } => TriggerKind::NumericThreshold,
        TriggerValue::TimeOfDay { .. } => TriggerKind::TimeOfDay,
        TriggerValue::SunEvent { .. } => TriggerKind::SunEvent,
        TriggerValue::Cron { .. } => TriggerKind::Cron,
        TriggerValue::Periodic { .. } => TriggerKind::Periodic,
        TriggerValue::CalendarEvent { .. } => TriggerKind::CalendarEvent,
        TriggerValue::CustomEvent { .. } => TriggerKind::CustomEvent,
        TriggerValue::SystemStarted => TriggerKind::SystemStarted,
        TriggerValue::HubVariableChanged { .. } => TriggerKind::HubVariableChanged,
        TriggerValue::ModeChanged { .. } => TriggerKind::ModeChanged,
        TriggerValue::WebhookReceived { .. } => TriggerKind::WebhookReceived,
        TriggerValue::ManualTrigger => TriggerKind::ManualTrigger,
        TriggerValue::MqttMessage { .. } => TriggerKind::MqttMessage,
        TriggerValue::DeviceBatteryLow { .. } => TriggerKind::DeviceBatteryLow,
        TriggerValue::DeviceBatteryRecovered { .. } => TriggerKind::DeviceBatteryRecovered,
    }
}

/// Whether `t` is the trigger a new trigger of kind `k` starts as: text
/// fields empty and optional fields absent, except a pushed button, a
/// crossing above 0.0, 08:00 on every day, sunset with no offset, the cron
/// expression `0 0 8 * * *`, every 15 minutes, the webhook path `/hooks/`
/// and the MQTT topic `homecore/devices/+/state`.
pub open spec fn is_default_trigger(t: TriggerValue, k: TriggerKind) -> bool {
    &&& trigger_kind_spec(t) == k
    &&& match t {
        TriggerValue::DeviceStateChanged { device_id, device_ids, attribute, to, from, not_from, not_to, for_duration_secs, change_kind, change_source } => device_id@.len() == 0 && device_ids@.len() == 0 && attribute is None && to is None && from is None && not_from is None && not_to is None && for_duration_secs is None && change_kind is None && change_source is None,
        TriggerValue::DeviceAvailabilityChanged { device_id, to, for_duration_secs } => device_id@.len() == 0 && to is None && for_duration_secs is None,
        TriggerValue::ButtonEvent { device_id, button_number, event } => device_id@.len() == 0 && button_number is None && event == ButtonEventType::Pushed,
        TriggerValue::NumericThreshold { device_id, attribute, op, value, for_duration_secs } => device_id@.len() == 0 && attribute@.len() == 0 && op == ThresholdOp::CrossesAbove && value@ == JsonV::Num(NumV::Float("0.0"@)) && for_duration_secs is None,
        TriggerValue::TimeOfDay { time_secs, days } => time_secs == 8 * 3600 && days@ == seq![0u8, 1, 2, 3, 4, 5, 6],
        TriggerValue::SunEvent { event, offset_minutes } => event == SunEventType::Sunset && offset_minutes == 0,
        TriggerValue::Cron { expression } => expression@ == "0 0 8 * * *"@,
        TriggerValue::Periodic { every_n, unit } => every_n == 15 && unit == PeriodicUnit::Minutes,
        TriggerValue::CalendarEvent { calendar_id, title_contains, offset_minutes } => calendar_id is None && title_contains is None && offset_minutes == 0,
        TriggerValue::CustomEvent { event_type } => event_type@.len() == 0,
        TriggerValue::SystemStarted => true,
        TriggerValue::HubVariableChanged { name } => name is None,
        TriggerValue::ModeChanged { mode_id, to } => mode_id is None && to is None,
        TriggerValue::WebhookReceived { path } => path@ == "/hooks/"@,
        TriggerValue::ManualTrigger => true,
        TriggerValue::MqttMessage { topic_pattern, payload, value_path, value_op, value_cmp } => topic_pattern@ == "homecore/devices/+/state"@ && payload is None && value_path is None && value_op is None && value_cmp is None,
        TriggerValue::DeviceBatteryLow { device_id } => device_id is None,
        TriggerValue::DeviceBatteryRecovered { device_id } => device_id is None,
    }
}

/// A new trigger of a kind.
pub fn trigger_of_kind(k: TriggerKind) -> (r: TriggerValue)
    ensures
        is_default_trigger(r, k),
{
    match k {
        TriggerKind::DeviceStateChanged => TriggerValue::DeviceStateChanged { device_id: empty(), device_ids: Vec::new(), attribute: None, to: None, from: None, not_from: None, not_to: None, for_duration_secs: None, change_kind: None, change_source: None },
        TriggerKind::DeviceAvailabilityChanged => TriggerValue::DeviceAvailabilityChanged { device_id: empty(), to: None, for_duration_secs: None },
        TriggerKind::ButtonEvent => TriggerValue::ButtonEvent { device_id: empty(), button_number: None, event: ButtonEventType::Pushed },
        TriggerKind::NumericThreshold => TriggerValue::NumericThreshold { device_id: empty(), attribute: empty(), op: ThresholdOp::CrossesAbove, value: zero_float(), for_duration_secs: None },
        TriggerKind::TimeOfDay => TriggerValue::TimeOfDay { time_secs: 8 * 3600, days: vec![0, 1, 2, 3, 4, 5, 6] },
        TriggerKind::SunEvent => TriggerValue::SunEvent { event: SunEventType::Sunset, offset_minutes: 0 },
        TriggerKind::Cron => TriggerValue::Cron { expression: owned("0 0 8 * * *") },
        TriggerKind::Periodic => TriggerValue::Periodic { every_n: 15, unit: PeriodicUnit::Minutes },
        TriggerKind::CalendarEvent => TriggerValue::CalendarEvent { calendar_id: None, title_contains: None, offset_minutes: 0 },
        TriggerKind::CustomEvent => TriggerValue::CustomEvent { event_type: empty() },
        TriggerKind::SystemStarted => TriggerValue::SystemStarted,
        TriggerKind::HubVariableChanged => TriggerValue::HubVariableChanged { name: None },
        TriggerKind::ModeChanged => TriggerValue::ModeChanged { mode_id: None, to: None },
        TriggerKind::WebhookReceived => TriggerValue::WebhookReceived { path: owned("/hooks/") },
        TriggerKind::ManualTrigger => TriggerValue::ManualTrigger,
        TriggerKind::MqttMessage => TriggerValue::MqttMessage { topic_pattern: owned("homecore/devices/+/state"), payload: None, value_path: None, value_op: None, value_cmp: None },
        TriggerKind::DeviceBatteryLow => TriggerValue::DeviceBatteryLow { device_id: None },
        TriggerKind::DeviceBatteryRecovered => TriggerValue::DeviceBatteryRecovered { device_id: None },
    }
}

/// The trigger the type picker starts for a key (see `trigger_kind_of`).
pub fn default_trigger(key: &str) -> (r: TriggerValue)
    ensures
        is_default_trigger(r, trigger_kind_of(key@)),
{
    trigger_of_kind(default_trigger_kind(key))
}

fn zero_float() -> (r: Json)
    ensures
        r@ == JsonV::Num(NumV::Float("0.0"@)),
{
    Json::Number(JsonNumber::Float(owned("0.0")))
}


// ── A rule's trigger, conditions and actions ─────────────────────────────────
/// An action in a rule's list, which can be switched off.
pub struct RuleAction {
    pub enabled: bool,
    pub action: ActionValue,
}

/// The parts of a rule that its editor's three steps build.
pub struct RuleBody {
    pub trigger: TriggerValue,
    pub conditions: Vec<ConditionValue>,
    pub actions: Vec<RuleAction>,
}

/// Choosing a trigger type: the rule's trigger becomes a new trigger of
/// that type; the rest of the rule stays.
pub fn set_trigger_type(r: &mut RuleBody, key: &str)
    ensures
        is_default_trigger(final(r).trigger, trigger_kind_of(key@)),
        final(r).conditions@ == old(r).conditions@,
        final(r).actions@ == old(r).actions@,
{
    r.trigger = default_trigger(key);
}

/// Choosing a condition type: the condition becomes a new one of that type.
pub fn set_condition_type(c: &mut ConditionValue, key: &str)
    ensures
        is_default_condition(*final(c), condition_kind_of(key@)),
{
    *c = default_condition(key);
}

/// Choosing an action type: the action becomes a new one of that type.
pub fn set_action_type(a: &mut ActionValue, key: &str)
    ensures
        is_default_action(*final(a), action_kind_of(key@)),
{
    *a = default_action(key);
}

/// "add condition": a new device state condition joins the end of the
/// rule's conditions.
pub fn add_rule_condition(r: &mut RuleBody)
    ensures
        group_edited(old(r).conditions@, final(r).conditions@, GroupEdit::Add),
        final(r).trigger == old(r).trigger,
        final(r).actions@ == old(r).actions@,
{
    edit_conditions(&mut r.conditions, GroupEdit::Add);
}

/// A new log message action, as the action lists start one.
fn new_log_message() -> (r: ActionValue)
    ensures
        is_default_action(r, ActionKind::LogMessage),
{
    action_of_kind(ActionKind::LogMessage)
}

/// "add action": a new, enabled log message action joins the end of the
/// rule's actions.
pub fn add_rule_action(r: &mut RuleBody)
    ensures
        final(r).actions@.len() == old(r).actions@.len() + 1,
        final(r).actions@.drop_last() == old(r).actions@,
        final(r).actions@.last().enabled,
        is_default_action(final(r).actions@.last().action, ActionKind::LogMessage),
        final(r).trigger == old(r).trigger,
        final(r).conditions@ == old(r).conditions@,
{
    let ghost before = r.actions@;
    r.actions.push(RuleAction { enabled: true, action: new_log_message() });
    assert(r.actions@.drop_last() =~= before);
}

/// "+ Add action" in a nested list: a new log message action joins the end.
pub fn add_nested_action(acts: &mut Vec<ActionValue>)
    ensures
        final(acts)@.len() == old(acts)@.len() + 1,
        final(acts)@.drop_last() == old(acts)@,
        is_default_action(final(acts)@.last(), ActionKind::LogMessage),
{
    let ghost before = acts@;
    acts.push(new_log_message());
    assert(acts@.drop_last() =~= before);
}

/// An edit of a nested condition in a group: the child at `ci` is replaced
/// where there is one; the group keeps its variant and every other child.
/// Any other condition is left as it is.
pub fn set_group_child(c: &mut ConditionValue, ci: usize, child: ConditionValue)
    ensures
        match *old(c) {
            ConditionValue::And { conditions } => *final(c) matches ConditionValue::And { conditions: cs }
                && cs@ == if ci < conditions@.len() { conditions@.update(ci as int, child) } else { conditions@ },
            ConditionValue::Or { conditions } => *final(c) matches ConditionValue::Or { conditions: cs }
                && cs@ == if ci < conditions@.len() { conditions@.update(ci as int, child) } else { conditions@ },
            ConditionValue::Xor { conditions } => *final(c) matches ConditionValue::Xor { conditions: cs }
                && cs@ == if ci < conditions@.len() { conditions@.update(ci as int, child) } else { conditions@ },
            _ => *final(c) == *old(c),
        },
{
    match c {
        ConditionValue::And { conditions } => replace_child(conditions, ci, child),
        ConditionValue::Or { conditions } => replace_child(conditions, ci, child),
        ConditionValue::Xor { conditions } => replace_child(conditions, ci, child),
        _ => {},
    }
}

fn replace_child(cs: &mut Vec<ConditionValue>, ci: usize, child: ConditionValue)
    ensures
        final(cs)@ == if ci < old(cs)@.len() { old(cs)@.update(ci as int, child) } else { old(cs)@ },
{
    if ci < cs.len() {
        cs.set(ci, child);
    }
}

/// The reset button of a `not` condition: it wraps a new device state
/// condition again.
pub fn reset_not() -> (r: ConditionValue)
    ensures
        r matches ConditionValue::Not { condition } && is_default_condition(*condition, ConditionKind::DeviceState),
{
    ConditionValue::Not { condition: Box::new(new_device_state()) }
}

} // verus!
