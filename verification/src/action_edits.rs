//! The action editor's field edits: what typing into, ticking or choosing
//! in each of an action's fields does to the action.
use vstd::prelude::*;
use crate::text::{parse_u64, parse_u32, chars_of, parse_u64_chars, parse_u32_chars, owned};
use crate::json::{Json, JsonV};
use crate::actions::opt_jv;
use crate::rule_options::{LogLevel, VariableOp, log_level_of, parse_log_level, variable_op_of, parse_variable_op};
use crate::rule_values::{ActionValue, ModeCommand, ConditionalBranch};

verus! {

/// A text field of an action, set to the text as typed.
#[derive(PartialEq, Eq, Structural, Clone, Copy, Debug)]
pub enum TextField {
    DeviceId,
    SnapshotKey,
    Condition,
    Channel,
    Message,
    ModeId,
    Expression,
    Script,
    CommentText,
    EventType,
    Url,
    Method,
    Topic,
    Payload,
    Name,
    Host,
}

/// An optional text field of an action: empty text clears it.
#[derive(PartialEq, Eq, Structural, Clone, Copy, Debug)]
pub enum OptTextField {
    Title,
    CancelKey,
    WaitEventType,
    WaitDeviceId,
    WaitAttribute,
    ResponseEvent,
}

/// A yes/no field of an action.
#[derive(PartialEq, Eq, Structural, Clone, Copy, Debug)]
pub enum FlagField {
    TrackEventValue,
    Cancelable,
    Retain,
    BooleanValue,
}

/// A whole-number field of an action, changed only by text that reads as a
/// number.
#[derive(PartialEq, Eq, Structural, Clone, Copy, Debug)]
pub enum NumberField {
    FadeSecs,
    DelaySecs,
    RepeatCount,
}

/// An optional whole-number field of an action: text that reads as a number
/// sets it, any other text clears it.
#[derive(PartialEq, Eq, Structural, Clone, Copy, Debug)]
pub enum OptNumberField {
    FadeSteps,
    PollInterval,
    HoldDuration,
    Timeout,
    Retries,
    Interval,
    MaxIterations,
    PingCount,
    DefaultSecs,
}

/// A JSON field of an action, changed only by text that reads as JSON.
#[derive(PartialEq, Eq, Structural, Clone, Copy, Debug)]
pub enum JsonField {
    EventPayload,
    Body,
}

/// `a` with the text field `f` set to `v`, where `a` has that field.
pub open spec fn with_text(a: ActionValue, f: TextField, v: String) -> ActionValue {
    match (a, f) {
        (ActionValue::SetDeviceState { device_id: _, state, track_event_value }, TextField::DeviceId) => ActionValue::SetDeviceState { device_id: v, state, track_event_value },
        (ActionValue::FadeDevice { device_id: _, target, duration_secs, steps }, TextField::DeviceId) => ActionValue::FadeDevice { device_id: v, target, duration_secs, steps },
        (ActionValue::SetDeviceStatePerMode { device_id: _, modes, default_state }, TextField::DeviceId) => ActionValue::SetDeviceStatePerMode { device_id: v, modes, default_state },
        (ActionValue::CaptureDeviceState { key: _, device_ids }, TextField::SnapshotKey) => ActionValue::CaptureDeviceState { key: v, device_ids },
        (ActionValue::RestoreDeviceState { key: _ }, TextField::SnapshotKey) => ActionValue::RestoreDeviceState { key: v },
        (ActionValue::Conditional { condition: _, then_actions, else_if, else_actions }, TextField::Condition) => ActionValue::Conditional { condition: v, then_actions, else_if, else_actions },
        (ActionValue::RepeatUntil { condition: _, actions, max_iterations, interval_ms }, TextField::Condition) => ActionValue::RepeatUntil { condition: v, actions, max_iterations, interval_ms },
        (ActionValue::RepeatWhile { condition: _, actions, max_iterations, interval_ms }, TextField::Condition) => ActionValue::RepeatWhile { condition: v, actions, max_iterations, interval_ms },
        (ActionValue::Notify { channel: _, message, title }, TextField::Channel) => ActionValue::Notify { channel: v, message, title },
        (ActionValue::Notify { channel, message: _, title }, TextField::Message) => ActionValue::Notify { channel, message: v, title },
        (ActionValue::LogMessage { message: _, level }, TextField::Message) => ActionValue::LogMessage { message: v, level },
        (ActionValue::SetMode { mode_id: _, command }, TextField::ModeId) => ActionValue::SetMode { mode_id: v, command },
        (ActionValue::WaitForExpression { expression: _, poll_interval_ms, timeout_ms, hold_duration_ms }, TextField::Expression) => ActionValue::WaitForExpression { expression: v, poll_interval_ms, timeout_ms, hold_duration_ms },
        (ActionValue::RunScript { script: _ }, TextField::Script) => ActionValue::RunScript { script: v },
        (ActionValue::Comment { text: _ }, TextField::CommentText) => ActionValue::Comment { text: v },
        (ActionValue::FireEvent { event_type: _, payload }, TextField::EventType) => ActionValue::FireEvent { event_type: v, payload },
        (ActionValue::CallService { url: _, method, body, timeout_ms, retries, response_event }, TextField::Url) => ActionValue::CallService { url: v, method, body, timeout_ms, retries, response_event },
        (ActionValue::CallService { url, method: _, body, timeout_ms, retries, response_event }, TextField::Method) => ActionValue::CallService { url, method: v, body, timeout_ms, retries, response_event },
        (ActionValue::PublishMqtt { topic: _, payload, retain }, TextField::Topic) => ActionValue::PublishMqtt { topic: v, payload, retain },
        (ActionValue::PublishMqtt { topic, payload: _, retain }, TextField::Payload) => ActionValue::PublishMqtt { topic, payload: v, retain },
        (ActionValue::SetVariable { name: _, value, op }, TextField::Name) => ActionValue::SetVariable { name: v, value, op },
        (ActionValue::SetHubVariable { name: _, value, op }, TextField::Name) => ActionValue::SetHubVariable { name: v, value, op },
        (ActionValue::SetPrivateBoolean { name: _, value }, TextField::Name) => ActionValue::SetPrivateBoolean { name: v, value },
        (ActionValue::PingHost { host: _, count, timeout_ms, then_actions, else_actions, response_event }, TextField::Host) => ActionValue::PingHost { host: v, count, timeout_ms, then_actions, else_actions, response_event },
        (a, _) => a,
    }
}

/// `a` with the optional text field `f` set to `v`, where `a` has that field.
pub open spec fn with_opt_text(a: ActionValue, f: OptTextField, v: Option<String>) -> ActionValue {
    match (a, f) {
        (ActionValue::Notify { channel, message, title: _ }, OptTextField::Title) => ActionValue::Notify { channel, message, title: v },
        (ActionValue::Delay { duration_secs, cancelable, cancel_key: _ }, OptTextField::CancelKey) => ActionValue::Delay { duration_secs, cancelable, cancel_key: v },
        (ActionValue::CancelDelays { key: _ }, OptTextField::CancelKey) => ActionValue::CancelDelays { key: v },
        (ActionValue::WaitForEvent { event_type: _, device_id, attribute, timeout_ms }, OptTextField::WaitEventType) => ActionValue::WaitForEvent { event_type: v, device_id, attribute, timeout_ms },
        (ActionValue::WaitForEvent { event_type, device_id: _, attribute, timeout_ms }, OptTextField::WaitDeviceId) => ActionValue::WaitForEvent { event_type, device_id: v, attribute, timeout_ms },
        (ActionValue::WaitForEvent { event_type, device_id, attribute: _, timeout_ms }, OptTextField::WaitAttribute) => ActionValue::WaitForEvent { event_type, device_id, attribute: v, timeout_ms },
        (ActionValue::CallService { url, method, body, timeout_ms, retries, response_event: _ }, OptTextField::ResponseEvent) => ActionValue::CallService { url, method, body, timeout_ms, retries, response_event: v },
        (ActionValue::PingHost { host, count, timeout_ms, then_actions, else_actions, response_event: _ }, OptTextField::ResponseEvent) => ActionValue::PingHost { host, count, timeout_ms, then_actions, else_actions, response_event: v },
        (a, _) => a,
    }
}

/// `a` with the yes/no field `f` set to `v`, where `a` has that field.
pub open spec fn with_flag(a: ActionValue, f: FlagField, v: bool) -> ActionValue {
    match (a, f) {
        (ActionValue::SetDeviceState { device_id, state, track_event_value: _ }, FlagField::TrackEventValue) => ActionValue::SetDeviceState { device_id, state, track_event_value: v },
        (ActionValue::Delay { duration_secs, cancelable: _, cancel_key }, FlagField::Cancelable) => ActionValue::Delay { duration_secs, cancelable: v, cancel_key },
        (ActionValue::PublishMqtt { topic, payload, retain: _ }, FlagField::Retain) => ActionValue::PublishMqtt { topic, payload, retain: v },
        (ActionValue::SetPrivateBoolean { name, value: _ }, FlagField::BooleanValue) => ActionValue::SetPrivateBoolean { name, value: v },
        (a, _) => a,
    }
}

/// `a` with the number field `f` set to `v`, where `a` has that field.
pub open spec fn with_number(a: ActionValue, f: NumberField, v: u64) -> ActionValue {
    match (a, f) {
        (ActionValue::FadeDevice { device_id, target, duration_secs: _, steps }, NumberField::FadeSecs) => ActionValue::FadeDevice { device_id, target, duration_secs: v, steps },
        (ActionValue::Delay { duration_secs: _, cancelable, cancel_key }, NumberField::DelaySecs) => ActionValue::Delay { duration_secs: v, cancelable, cancel_key },
        (ActionValue::RepeatCount { count: _, actions, interval_ms }, NumberField::RepeatCount) => ActionValue::RepeatCount { count: v, actions, interval_ms },
        (a, _) => a,
    }
}

/// `a` with the optional number field `f` set to `v`, where `a` has that field.
pub open spec fn with_opt_number(a: ActionValue, f: OptNumberField, v: Option<u64>) -> ActionValue {
    match (a, f) {
        (ActionValue::FadeDevice { device_id, target, duration_secs, steps: _ }, OptNumberField::FadeSteps) => ActionValue::FadeDevice { device_id, target, duration_secs, steps: v },
        (ActionValue::WaitForExpression { expression, poll_interval_ms: _, timeout_ms, hold_duration_ms }, OptNumberField::PollInterval) => ActionValue::WaitForExpression { expression, poll_interval_ms: v, timeout_ms, hold_duration_ms },
        (ActionValue::WaitForExpression { expression, poll_interval_ms, timeout_ms, hold_duration_ms: _ }, OptNumberField::HoldDuration) => ActionValue::WaitForExpression { expression, poll_interval_ms, timeout_ms, hold_duration_ms: v },
        (ActionValue::WaitForExpression { expression, poll_interval_ms, timeout_ms: _, hold_duration_ms }, OptNumberField::Timeout) => ActionValue::WaitForExpression { expression, poll_interval_ms, timeout_ms: v, hold_duration_ms },
        (ActionValue::WaitForEvent { event_type, device_id, attribute, timeout_ms: _ }, OptNumberField::Timeout) => ActionValue::WaitForEvent { event_type, device_id, attribute, timeout_ms: v },
        (ActionValue::CallService { url, method, body, timeout_ms: _, retries, response_event }, OptNumberField::Timeout) => ActionValue::CallService { url, method, body, timeout_ms: v, retries, response_event },
        (ActionValue::PingHost { host, count, timeout_ms: _, then_actions, else_actions, response_event }, OptNumberField::Timeout) => ActionValue::PingHost { host, count, timeout_ms: v, then_actions, else_actions, response_event },
        (ActionValue::CallService { url, method, body, timeout_ms, retries: _, response_event }, OptNumberField::Retries) => ActionValue::CallService { url, method, body, timeout_ms, retries: v, response_event },
        (ActionValue::RepeatCount { count, actions, interval_ms: _ }, OptNumberField::Interval) => ActionValue::RepeatCount { count, actions, interval_ms: v },
        (ActionValue::RepeatUntil { condition, actions, max_iterations, interval_ms: _ }, OptNumberField::Interval) => ActionValue::RepeatUntil { condition, actions, max_iterations, interval_ms: v },
        (ActionValue::RepeatWhile { condition, actions, max_iterations, interval_ms: _ }, OptNumberField::Interval) => ActionValue::RepeatWhile { condition, actions, max_iterations, interval_ms: v },
        (ActionValue::RepeatUntil { condition, actions, max_iterations: _, interval_ms }, OptNumberField::MaxIterations) => ActionValue::RepeatUntil { condition, actions, max_iterations: v, interval_ms },
        (ActionValue::RepeatWhile { condition, actions, max_iterations: _, interval_ms }, OptNumberField::MaxIterations) => ActionValue::RepeatWhile { condition, actions, max_iterations: v, interval_ms },
        (ActionValue::PingHost { host, count: _, timeout_ms, then_actions, else_actions, response_event }, OptNumberField::PingCount) => ActionValue::PingHost { host, count: v, timeout_ms, then_actions, else_actions, response_event },
        (ActionValue::DelayPerMode { modes, default_secs: _ }, OptNumberField::DefaultSecs) => ActionValue::DelayPerMode { modes, default_secs: v },
        (a, _) => a,
    }
}

/// Whether the field `f` holds a `u32` (else a `u64`).
pub open spec fn number_field_is_u32(f: NumberField) -> bool {
    match f {
        NumberField::FadeSecs => false,
        NumberField::DelaySecs => false,
        NumberField::RepeatCount => true,
    }
}

fn number_field_u32(f: NumberField) -> (r: bool)
    ensures
        r == number_field_is_u32(f),
{
    match f {
        NumberField::FadeSecs => false,
        NumberField::DelaySecs => false,
        NumberField::RepeatCount => true,
    }
}

/// Whether the field `f` holds a `u32` (else a `u64`).
pub open spec fn opt_number_field_is_u32(f: OptNumberField) -> bool {
    match f {
        OptNumberField::FadeSteps => true,
        OptNumberField::PollInterval => false,
        OptNumberField::HoldDuration => false,
        OptNumberField::Timeout => false,
        OptNumberField::Retries => true,
        OptNumberField::Interval => false,
        OptNumberField::MaxIterations => true,
        OptNumberField::PingCount => true,
        OptNumberField::DefaultSecs => false,
    }
}

fn opt_number_field_u32(f: OptNumberField) -> (r: bool)
    ensures
        r == opt_number_field_is_u32(f),
{
    match f {
        OptNumberField::FadeSteps => true,
        OptNumberField::PollInterval => false,
        OptNumberField::HoldDuration => false,
        OptNumberField::Timeout => false,
        OptNumberField::Retries => true,
        OptNumberField::Interval => false,
        OptNumberField::MaxIterations => true,
        OptNumberField::PingCount => true,
        OptNumberField::DefaultSecs => false,
    }
}


fn set_text(a: &mut ActionValue, f: TextField, v: String)
    ensures
        *final(a) == with_text(*old(a), f, v),
{
    match a {
        ActionValue::SetDeviceState { device_id, .. } => match f {
            TextField::DeviceId => {
                *device_id = v;
            },
            _ => {},
        },
        ActionValue::FadeDevice { device_id, .. } => match f {
            TextField::DeviceId => {
                *device_id = v;
            },
            _ => {},
        },
        ActionValue::SetDeviceStatePerMode { device_id, .. } => match f {
            TextField::DeviceId => {
                *device_id = v;
            },
            _ => {},
        },
        ActionValue::CaptureDeviceState { key, .. } => match f {
            TextField::SnapshotKey => {
                *key = v;
            },
            _ => {},
        },
        ActionValue::RestoreDeviceState { key, .. } => match f {
            TextField::SnapshotKey => {
                *key = v;
            },
            _ => {},
        },
        ActionValue::Conditional { condition, .. } => match f {
            TextField::Condition => {
                *condition = v;
            },
            _ => {},
        },
        ActionValue::RepeatUntil { condition, .. } => match f {
            TextField::Condition => {
                *condition = v;
            },
            _ => {},
        },
        ActionValue::RepeatWhile { condition, .. } => match f {
            TextField::Condition => {
                *condition = v;
            },
            _ => {},
        },
        ActionValue::Notify { channel, message, .. } => match f {
            TextField::Channel => {
                *channel = v;
            },
            TextField::Message => {
                *message = v;
            },
            _ => {},
        },
        ActionValue::LogMessage { message, .. } => match f {
            TextField::Message => {
                *message = v;
            },
            _ => {},
        },
        ActionValue::SetMode { mode_id, .. } => match f {
            TextField::ModeId => {
                *mode_id = v;
            },
            _ => {},
        },
        ActionValue::WaitForExpression { expression, .. } => match f {
            TextField::Expression => {
                *expression = v;
            },
            _ => {},
        },
        ActionValue::RunScript { script, .. } => match f {
            TextField::Script => {
                *script = v;
            },
            _ => {},
        },
        ActionValue::Comment { text, .. } => match f {
            TextField::CommentText => {
                *text = v;
            },
            _ => {},
        },
        ActionValue::FireEvent { event_type, .. } => match f {
            TextField::EventType => {
                *event_type = v;
            },
            _ => {},
        },
        ActionValue::CallService { url, method, .. } => match f {
            TextField::Url => {
                *url = v;
            },
            TextField::Method => {
                *method = v;
            },
            _ => {},
        },
        ActionValue::PublishMqtt { topic, payload, .. } => match f {
            TextField::Topic => {
                *topic = v;
            },
            TextField::Payload => {
                *payload = v;
            },
            _ => {},
        },
        ActionValue::SetVariable { name, .. } => match f {
            TextField::Name => {
                *name = v;
            },
            _ => {},
        },
        ActionValue::SetHubVariable { name, .. } => match f {
            TextField::Name => {
                *name = v;
            },
            _ => {},
        },
        ActionValue::SetPrivateBoolean { name, .. } => match f {
            TextField::Name => {
                *name = v;
            },
            _ => {},
        },
        ActionValue::PingHost { host, .. } => match f {
            TextField::Host => {
                *host = v;
            },
            _ => {},
        },
        _ => {},
    }
}


fn set_opt_text(a: &mut ActionValue, f: OptTextField, v: Option<String>)
    ensures
        *final(a) == with_opt_text(*old(a), f, v),
{
    match a {
        ActionValue::Notify { title, .. } => match f {
            OptTextField::Title => {
                *title = v;
            },
            _ => {},
        },
        ActionValue::Delay { cancel_key, .. } => match f {
            OptTextField::CancelKey => {
                *cancel_key = v;
            },
            _ => {},
        },
        ActionValue::CancelDelays { key, .. } => match f {
            OptTextField::CancelKey => {
                *key = v;
            },
            _ => {},
        },
        ActionValue::WaitForEvent { event_type, device_id, attribute, .. } => match f {
            OptTextField::WaitEventType => {
                *event_type = v;
            },
            OptTextField::WaitDeviceId => {
                *device_id = v;
            },
            OptTextField::WaitAttribute => {
                *attribute = v;
            },
            _ => {},
        },
        ActionValue::CallService { response_event, .. } => match f {
            OptTextField::ResponseEvent => {
                *response_event = v;
            },
            _ => {},
        },
        ActionValue::PingHost { response_event, .. } => match f {
            OptTextField::ResponseEvent => {
                *response_event = v;
            },
            _ => {},
        },
        _ => {},
    }
}


fn set_flag(a: &mut ActionValue, f: FlagField, v: bool)
    ensures
        *final(a) == with_flag(*old(a), f, v),
{
    match a {
        ActionValue::SetDeviceState { track_event_value, .. } => match f {
            FlagField::TrackEventValue => {
                *track_event_value = v;
            },
            _ => {},
        },
        ActionValue::Delay { cancelable, .. } => match f {
            FlagField::Cancelable => {
                *cancelable = v;
            },
            _ => {},
        },
        ActionValue::PublishMqtt { retain, .. } => match f {
            FlagField::Retain => {
                *retain = v;
            },
            _ => {},
        },
        ActionValue::SetPrivateBoolean { value, .. } => match f {
            FlagField::BooleanValue => {
                *value = v;
            },
            _ => {},
        },
        _ => {},
    }
}


fn set_number(a: &mut ActionValue, f: NumberField, v: u64)
    ensures
        *final(a) == with_number(*old(a), f, v),
{
    match a {
        ActionValue::FadeDevice { duration_secs, .. } => match f {
            NumberField::FadeSecs => {
                *duration_secs = v;
            },
            _ => {},
        },
        ActionValue::Delay { duration_secs, .. } => match f {
            NumberField::DelaySecs => {
                *duration_secs = v;
            },
            _ => {},
        },
        ActionValue::RepeatCount { count, .. } => match f {
            NumberField::RepeatCount => {
                *count = v;
            },
            _ => {},
        },
        _ => {},
    }
}


fn set_opt_number(a: &mut ActionValue, f: OptNumberField, v: Option<u64>)
    ensures
        *final(a) == with_opt_number(*old(a), f, v),
{
    match a {
        ActionValue::FadeDevice { steps, .. } => match f {
            OptNumberField::FadeSteps => {
                *steps = v;
            },
            _ => {},
        },
        ActionValue::WaitForExpression { poll_interval_ms, timeout_ms, hold_duration_ms, .. } => match f {
            OptNumberField::PollInterval => {
                *poll_interval_ms = v;
            },
            OptNumberField::HoldDuration => {
                *hold_duration_ms = v;
            },
            OptNumberField::Timeout => {
                *timeout_ms = v;
            },
            _ => {},
        },
        ActionValue::WaitForEvent { timeout_ms, .. } => match f {
            OptNumberField::Timeout => {
                *timeout_ms = v;
            },
            _ => {},
        },
        ActionValue::CallService { timeout_ms, retries, .. } => match f {
            OptNumberField::Timeout => {
                *timeout_ms = v;
            },
            OptNumberField::Retries => {
                *retries = v;
            },
            _ => {},
        },
        ActionValue::PingHost { count, timeout_ms, .. } => match f {
            OptNumberField::Timeout => {
                *timeout_ms = v;
            },
            OptNumberField::PingCount => {
                *count = v;
            },
            _ => {},
        },
        ActionValue::RepeatCount { interval_ms, .. } => match f {
            OptNumberField::Interval => {
                *interval_ms = v;
            },
            _ => {},
        },
        ActionValue::RepeatUntil { max_iterations, interval_ms, .. } => match f {
            OptNumberField::Interval => {
                *interval_ms = v;
            },
            OptNumberField::MaxIterations => {
                *max_iterations = v;
            },
            _ => {},
        },
        ActionValue::RepeatWhile { max_iterations, interval_ms, .. } => match f {
            OptNumberField::Interval => {
                *interval_ms = v;
            },
            OptNumberField::MaxIterations => {
                *max_iterations = v;
            },
            _ => {},
        },
        ActionValue::DelayPerMode { default_secs, .. } => match f {
            OptNumberField::DefaultSecs => {
                *default_secs = v;
            },
            _ => {},
        },
        _ => {},
    }
}


/// `raw.parse::<u64>().ok()`, or `raw.parse::<u32>().ok()` for a `u32` field.
pub open spec fn number_of(raw: Seq<char>, narrow: bool) -> Option<u64> {
    match if narrow { parse_u32(raw) } else { parse_u64(raw) } {
        Some(n) => Some(n as u64),
        None => None,
    }
}

fn read_number(raw: &str, narrow: bool) -> (r: Option<u64>)
    ensures
        r == number_of(raw@, narrow),
{
    let cs = chars_of(raw);
    if narrow {
        match parse_u32_chars(&cs) {
            Some(n) => Some(n as u64),
            None => None,
        }
    } else {
        parse_u64_chars(&cs)
    }
}

/// Empty text is none, other text is itself.
pub open spec fn opt_text_of(v: String) -> Option<String> {
    if v@.len() == 0 {
        None
    } else {
        Some(v)
    }
}

/// Whether `after` is `before` with the JSON field `f` holding `v`, every
/// other field kept; actions without that field are left as they are.
pub open spec fn json_set(before: ActionValue, after: ActionValue, f: JsonField, v: JsonV) -> bool {
    match (before, f) {
        (ActionValue::FireEvent { event_type, payload: _ }, JsonField::EventPayload) => after matches ActionValue::FireEvent {
            event_type: t,
            payload: p,
        } && t == event_type && p@ == v,
        (ActionValue::CallService { url, method, body: _, timeout_ms, retries, response_event }, JsonField::Body) => after matches ActionValue::CallService {
            url: u,
            method: m,
            body: b,
            timeout_ms: t,
            retries: r,
            response_event: e,
        } && u == url && m == method && b@ == v && t == timeout_ms && r == retries && e == response_event,
        _ => after == before,
    }
}

/// Whether `after` is `before` with a variable's value set to `v`, the
/// name and operation kept; other actions are left as they are.
pub open spec fn variable_value_set(before: ActionValue, after: ActionValue, v: JsonV) -> bool {
    match before {
        ActionValue::SetVariable { name, value: _, op } => after matches ActionValue::SetVariable { name: n, value: x, op: o }
            && n == name && o == op && x@ == v,
        ActionValue::SetHubVariable { name, value: _, op } => after matches ActionValue::SetHubVariable {
            name: n,
            value: x,
            op: o,
        } && n == name && o == op && x@ == v,
        _ => after == before,
    }
}

/// `a` with the log level set, where it is a log message.
pub open spec fn with_level(a: ActionValue, level: Option<LogLevel>) -> ActionValue {
    match a {
        ActionValue::LogMessage { message, level: _ } => ActionValue::LogMessage { message, level },
        _ => a,
    }
}

/// `a` with the variable operation set, where it sets a variable.
pub open spec fn with_op(a: ActionValue, op: Option<VariableOp>) -> ActionValue {
    match a {
        ActionValue::SetVariable { name, value, op: _ } => ActionValue::SetVariable { name, value, op },
        ActionValue::SetHubVariable { name, value, op: _ } => ActionValue::SetHubVariable { name, value, op },
        _ => a,
    }
}

/// `a` with the mode command set, where it switches a mode.
pub open spec fn with_command(a: ActionValue, command: ModeCommand) -> ActionValue {
    match a {
        ActionValue::SetMode { mode_id, command: _ } => ActionValue::SetMode { mode_id, command },
        _ => a,
    }
}

/// One edit in the action editor, with what was typed or chosen.
pub enum ActionEdit {
    Text(TextField, String),
    OptText(OptTextField, String),
    Flag(FlagField, bool),
    Number(NumberField, String),
    OptNumber(OptNumberField, String),
    Json(JsonField, String),
    /// The log level picker's value (`Debug`, `Warn`, `Error`; else none).
    Level(String),
    /// The variable operation picker's value.
    Op(String),
    /// A variable's value box: JSON text, or else the text as a string.
    VariableValue(String),
    Command(ModeCommand),
}

/// Applies an edit to an action. An edit of a field the action does not
/// have leaves it as it is; so does a number or JSON field given text that
/// does not read as one.
pub fn edit_action(a: &mut ActionValue, e: ActionEdit)
    ensures
        match e {
            ActionEdit::Text(f, v) => *final(a) == with_text(*old(a), f, v),
            ActionEdit::OptText(f, v) => *final(a) == with_opt_text(*old(a), f, opt_text_of(v)),
            ActionEdit::Flag(f, v) => *final(a) == with_flag(*old(a), f, v),
            ActionEdit::Number(f, raw) => *final(a) == match number_of(raw@, number_field_is_u32(f)) {
                Some(n) => with_number(*old(a), f, n),
                None => *old(a),
            },
            ActionEdit::OptNumber(f, raw) => *final(a) == with_opt_number(
                *old(a),
                f,
                number_of(raw@, opt_number_field_is_u32(f)),
            ),
            ActionEdit::Json(f, raw) => match crate::json::json_text_value(raw@) {
                Some(v) => json_set(*old(a), *final(a), f, v),
                None => *final(a) == *old(a),
            },
            ActionEdit::Level(raw) => *final(a) == with_level(*old(a), log_level_of(raw@)),
            ActionEdit::Op(raw) => *final(a) == with_op(*old(a), variable_op_of(raw@)),
            ActionEdit::VariableValue(raw) => variable_value_set(
                *old(a),
                *final(a),
                match crate::json::json_text_value(raw@) {
                    Some(v) => v,
                    None => JsonV::Str(raw@),
                },
            ),
            ActionEdit::Command(c) => *final(a) == with_command(*old(a), c),
        },
{
    match e {
        ActionEdit::Text(f, v) => set_text(a, f, v),
        ActionEdit::OptText(f, v) => {
            let o = if v.as_str().unicode_len() == 0 {
                None
            } else {
                Some(v)
            };
            set_opt_text(a, f, o);
        },
        ActionEdit::Flag(f, v) => set_flag(a, f, v),
        ActionEdit::Number(f, raw) => {
            match read_number(raw.as_str(), number_field_u32(f)) {
                Some(n) => set_number(a, f, n),
                None => {},
            }
        },
        ActionEdit::OptNumber(f, raw) => {
            let n = read_number(raw.as_str(), opt_number_field_u32(f));
            set_opt_number(a, f, n);
        },
        ActionEdit::Json(f, raw) => {
            match crate::json::parse_json(raw.as_str()) {
                Some(v) => set_json(a, f, v),
                None => {},
            }
        },
        ActionEdit::Level(raw) => {
            let l = parse_log_level(raw.as_str());
            match a {
                ActionValue::LogMessage { level, .. } => {
                    *level = l;
                },
                _ => {},
            }
        },
        ActionEdit::Op(raw) => {
            let o = parse_variable_op(raw.as_str());
            match a {
                ActionValue::SetVariable { op, .. } => {
                    *op = o;
                },
                ActionValue::SetHubVariable { op, .. } => {
                    *op = o;
                },
                _ => {},
            }
        },
        ActionEdit::VariableValue(raw) => {
            let v = crate::rule_editor::json_or_text(raw.as_str());
            match a {
                ActionValue::SetVariable { value, .. } => {
                    *value = v;
                },
                ActionValue::SetHubVariable { value, .. } => {
                    *value = v;
                },
                _ => {},
            }
        },
        ActionEdit::Command(c) => {
            match a {
                ActionValue::SetMode { command, .. } => {
                    *command = c;
                },
                _ => {},
            }
        },
    }
}

fn set_json(a: &mut ActionValue, f: JsonField, v: Json)
    ensures
        json_set(*old(a), *final(a), f, v@),
{
    match a {
        ActionValue::FireEvent { payload, .. } => match f {
            JsonField::EventPayload => {
                *payload = v;
            },
            _ => {},
        },
        ActionValue::CallService { body, .. } => match f {
            JsonField::Body => {
                *body = v;
            },
            _ => {},
        },
        _ => {},
    }
}

/// A change to a conditional action's `else if` branches.
pub enum BranchEdit {
    /// "+ Add ELSE IF": an empty branch joins the end.
    Add,
    /// Removes the branch at an index, where there is one.
    Remove(usize),
    /// Types a branch's condition, where there is such a branch.
    SetCondition(usize, String),
}

/// Whether `after` is the branch list `before` after an edit.
pub open spec fn branches_edited(before: Seq<ConditionalBranch>, after: Seq<ConditionalBranch>, e: BranchEdit) -> bool {
    match e {
        BranchEdit::Add => after.len() == before.len() + 1 && after.drop_last() == before
            && after.last().condition@.len() == 0 && after.last().actions@.len() == 0,
        BranchEdit::Remove(i) => after == if i < before.len() {
            before.remove(i as int)
        } else {
            before
        },
        BranchEdit::SetCondition(i, c) => if i < before.len() {
            after.len() == before.len() && after[i as int].condition == c && after[i as int].actions@
                == before[i as int].actions@ && forall|j: int| 0 <= j < before.len() && j != i ==> #[trigger] after[j]
                == before[j]
        } else {
            after == before
        },
    }
}

fn edit_branch_list(bs: &mut Vec<ConditionalBranch>, e: BranchEdit)
    ensures
        branches_edited(old(bs)@, final(bs)@, e),
{
    match e {
        BranchEdit::Add => {
            let ghost before = bs@;
            let c = owned("");
            proof {
                reveal_strlit("");
            }
            bs.push(ConditionalBranch { condition: c, actions: Vec::new() });
            assert(bs@.drop_last() =~= before);
        },
        BranchEdit::Remove(i) => {
            if i < bs.len() {
                bs.remove(i);
            }
        },
        BranchEdit::SetCondition(i, c) => {
            if i < bs.len() {
                let ghost before = bs@;
                let old_b = bs.remove(i);
                bs.insert(i, ConditionalBranch { condition: c, actions: old_b.actions });
                assert forall|j: int| 0 <= j < before.len() && j != i implies #[trigger] bs@[j] == before[j] by {
                    if j < i {
                        assert(bs@[j] == before[j]);
                    } else {
                        assert(bs@[j] == before[j]);
                    }
                }
            }
        },
    }
}

/// An edit of a conditional action's `else if` branches; the condition,
/// the `then` and `else` actions stay. Any other action is left as it is.
pub fn edit_branches(a: &mut ActionValue, e: BranchEdit)
    ensures
        match *old(a) {
            ActionValue::Conditional { condition, then_actions, else_if, else_actions } => *final(a) matches ActionValue::Conditional {
                condition: c,
                then_actions: t,
                else_if: b,
                else_actions: x,
            } && c == condition && t@ == then_actions@ && x@ == else_actions@ && branches_edited(else_if@, b@, e),
            _ => *final(a) == *old(a),
        },
{
    match a {
        ActionValue::Conditional { else_if, .. } => edit_branch_list(else_if, e),
        _ => {},
    }
}

// ── Per-mode actions ─────────────────────────────────────────────────────────
/// A change to a per-mode action's list of modes, or to its fallback.
pub enum PerModeEdit {
    /// "+ Add mode": an entry with no mode joins the end (its state `{}`,
    /// its delay 60 seconds, its scene the nil UUID).
    Add,
    /// Removes the entry at an index, where there is one.
    Remove(usize),
    /// Picks the mode of the entry at an index.
    Mode(usize, String),
    /// The entry's value box: a state as JSON text, a delay in seconds, or a
    /// scene's UUID. Text that does not read as one changes nothing.
    Value(usize, String),
    /// The fallback box: a state as JSON text (blank is none), a delay in
    /// seconds, or a scene's UUID (empty is none).
    Fallback(String),
}

/// The list after an edit that does not read a value: an added entry with
/// no mode holding `fresh`, a removed entry, or a picked mode.
pub open spec fn keyed_edited<T>(before: Seq<(String, T)>, after: Seq<(String, T)>, e: PerModeEdit, fresh: T) -> bool {
    match e {
        PerModeEdit::Add => after.len() == before.len() + 1 && after.drop_last() == before && after.last().0@.len() == 0
            && after.last().1 == fresh,
        PerModeEdit::Remove(i) => after == if i < before.len() {
            before.remove(i as int)
        } else {
            before
        },
        PerModeEdit::Mode(i, id) => after == if i < before.len() {
            before.update(i as int, (id, before[i as int].1))
        } else {
            before
        },
        _ => after == before,
    }
}

/// A delay list and fallback after an edit.
pub open spec fn delay_modes_edited(
    before: Seq<(String, u64)>,
    fallback: Option<u64>,
    after: Seq<(String, u64)>,
    fallback_after: Option<u64>,
    e: PerModeEdit,
) -> bool {
    match e {
        PerModeEdit::Value(i, raw) => fallback_after == fallback && after == match number_of(raw@, false) {
            Some(n) => if i < before.len() {
                before.update(i as int, (before[i as int].0, n))
            } else {
                before
            },
            None => before,
        },
        PerModeEdit::Fallback(raw) => after == before && fallback_after == number_of(raw@, false),
        _ => fallback_after == fallback && keyed_edited(before, after, e, 60u64),
    }
}

/// A scene's UUID value as read from text, where `uuid` reads one.
pub open spec fn scene_of(raw: Seq<char>) -> Option<u128> {
    match crate::rule_editor::uuid_value(raw) {
        Some(n) => Some(n as u128),
        None => None,
    }
}

/// A scene list and fallback after an edit.
pub open spec fn scene_modes_edited(
    before: Seq<(String, u128)>,
    fallback: Option<u128>,
    after: Seq<(String, u128)>,
    fallback_after: Option<u128>,
    e: PerModeEdit,
) -> bool {
    match e {
        PerModeEdit::Value(i, raw) => fallback_after == fallback && after == match scene_of(raw@) {
            Some(n) => if i < before.len() {
                before.update(i as int, (before[i as int].0, n))
            } else {
                before
            },
            None => before,
        },
        PerModeEdit::Fallback(raw) => after == before && fallback_after == if raw@.len() == 0 {
            None
        } else {
            scene_of(raw@)
        },
        _ => fallback_after == fallback && keyed_edited(before, after, e, 0u128),
    }
}

/// A state list and fallback after an edit: states compare by their JSON
/// values.
pub open spec fn state_modes_edited(
    before: Seq<(String, Json)>,
    fallback: Option<Json>,
    after: Seq<(String, Json)>,
    fallback_after: Option<Json>,
    e: PerModeEdit,
) -> bool {
    match e {
        PerModeEdit::Add => after.len() == before.len() + 1 && after.drop_last() == before && after.last().0@.len() == 0
            && after.last().1@ == JsonV::Obj(Seq::empty()) && fallback_after == fallback,
        PerModeEdit::Value(i, raw) => fallback_after == fallback && if i < before.len() && crate::json::json_text_value(raw@) is Some {
            after.len() == before.len() && after[i as int].0 == before[i as int].0 && after[i as int].1@
                == crate::json::json_text_value(raw@)->0 && forall|j: int|
                0 <= j < before.len() && j != i ==> #[trigger] after[j] == before[j]
        } else {
            after == before
        },
        PerModeEdit::Fallback(raw) => after == before && opt_jv(fallback_after) == if crate::text::trimmed(raw@).len() == 0 {
            None
        } else {
            crate::json::json_text_value(raw@)
        },
        _ => fallback_after == fallback && keyed_edited(before, after, e, Json::Null),
    }
}

fn keyed_edit<T>(v: &mut Vec<(String, T)>, e: PerModeEdit, fresh: T)
    requires
        !(e is Value || e is Fallback),
    ensures
        keyed_edited(old(v)@, final(v)@, e, fresh),
{
    match e {
        PerModeEdit::Add => {
            let ghost before = v@;
            let name = owned("");
            proof {
                reveal_strlit("");
            }
            v.push((name, fresh));
            assert(v@.drop_last() =~= before);
        },
        PerModeEdit::Remove(i) => {
            if i < v.len() {
                v.remove(i);
            }
        },
        PerModeEdit::Mode(i, id) => {
            if i < v.len() {
                let ghost before = v@;
                let ghost gid = id;
                let (_, x) = v.remove(i);
                v.insert(i, (id, x));
                assert(v@ =~= before.update(i as int, (gid, before[i as int].1)));
            }
        },
        _ => {},
    }
}

fn set_entry_value<T>(v: &mut Vec<(String, T)>, i: usize, x: T)
    ensures
        final(v)@ == if i < old(v)@.len() {
            old(v)@.update(i as int, (old(v)@[i as int].0, x))
        } else {
            old(v)@
        },
{
    if i < v.len() {
        let ghost before = v@;
        let ghost gx = x;
        let (name, _) = v.remove(i);
        v.insert(i, (name, x));
        assert(v@ =~= before.update(i as int, (before[i as int].0, gx)));
    }
}

/// An edit of a per-mode action's entries or fallback (see `PerModeEdit`);
/// the device of a per-mode state stays. Any other action is left as it is.
pub fn edit_per_mode(a: &mut ActionValue, e: PerModeEdit)
    ensures
        match *old(a) {
            ActionValue::SetDeviceStatePerMode { device_id, modes, default_state } => *final(a) matches ActionValue::SetDeviceStatePerMode {
                device_id: d,
                modes: m,
                default_state: f,
            } && d == device_id && state_modes_edited(modes@, default_state, m@, f, e),
            ActionValue::DelayPerMode { modes, default_secs } => *final(a) matches ActionValue::DelayPerMode {
                modes: m,
                default_secs: f,
            } && delay_modes_edited(modes@, default_secs, m@, f, e),
            ActionValue::ActivateScenePerMode { modes, default_scene_id } => *final(a) matches ActionValue::ActivateScenePerMode {
                modes: m,
                default_scene_id: f,
            } && scene_modes_edited(modes@, default_scene_id, m@, f, e),
            _ => *final(a) == *old(a),
        },
{
    match a {
        ActionValue::SetDeviceStatePerMode { modes, default_state, .. } => match e {
            PerModeEdit::Add => {
                let ghost before = modes@;
                let name = owned("");
                proof {
                    reveal_strlit("");
                }
                modes.push((name, crate::rule_values::empty_state()));
                assert(modes@.drop_last() =~= before);
            },
            PerModeEdit::Value(i, raw) => {
                if i < modes.len() {
                    match crate::json::parse_json(raw.as_str()) {
                        Some(v) => {
                            let ghost before = modes@;
                            let (name, _) = modes.remove(i);
                            modes.insert(i, (name, v));
                            assert forall|j: int| 0 <= j < before.len() && j != i implies #[trigger] modes@[j] == before[j] by {}
                        },
                        None => {},
                    }
                }
            },
            PerModeEdit::Fallback(raw) => {
                let t = crate::text::trim(raw.as_str());
                *default_state = if t.as_str().unicode_len() == 0 {
                    None
                } else {
                    crate::json::parse_json(raw.as_str())
                };
            },
            _ => keyed_edit(modes, e, Json::Null),
        },
        ActionValue::DelayPerMode { modes, default_secs } => match e {
            PerModeEdit::Value(i, raw) => {
                match read_number(raw.as_str(), false) {
                    Some(n) => set_entry_value(modes, i, n),
                    None => {},
                }
            },
            PerModeEdit::Fallback(raw) => {
                *default_secs = read_number(raw.as_str(), false);
            },
            _ => keyed_edit(modes, e, 60u64),
        },
        ActionValue::ActivateScenePerMode { modes, default_scene_id } => match e {
            PerModeEdit::Value(i, raw) => {
                match crate::rule_editor::rule_ref(raw.as_str()) {
                    Some(n) => set_entry_value(modes, i, n),
                    None => {},
                }
            },
            PerModeEdit::Fallback(raw) => {
                *default_scene_id = crate::rule_editor::optional_rule_ref(raw.as_str());
            },
            _ => keyed_edit(modes, e, 0u128),
        },
        _ => {},
    }
}

} // verus!
