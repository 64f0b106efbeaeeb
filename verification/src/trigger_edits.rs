//! The trigger editor's field edits: what typing into, ticking or choosing
//! in each of a trigger's fields does to the trigger.
use vstd::prelude::*;
use crate::text::{parse_u64, parse_u32, parse_i64, trimmed, trim, chars_of, parse_u64_chars, parse_u32_chars, parse_i64_chars};
use crate::json::{Json, JsonV};
use crate::actions::opt_jv;
use crate::rule_options::{
    CompareOp, compare_op_text, change_kind_of, parse_change_kind,
    threshold_op_of, parse_threshold_op, button_event_type_of, parse_button_event_type, sun_event_type_of,
    parse_sun_event_type, periodic_unit_of, parse_periodic_unit,
};
use crate::rule_editor::{match_value_of, match_value_text, availability_target, mode_target, toggle_day};
use crate::rule_values::TriggerValue;
use crate::rule_pickers::{watched_of, watched_devices, stored_of, store_devices, ids_after_add, add_watched};
use crate::text::strings_view;

verus! {

/// A text field of a trigger, set to the text as typed.
#[derive(PartialEq, Eq, Structural, Clone, Copy, Debug)]
pub enum TriggerText {
    DeviceId,
    ThresholdAttribute,
    CronExpression,
    EventType,
    WebhookPath,
    TopicPattern,
}

/// An optional text field of a trigger: empty text clears it.
#[derive(PartialEq, Eq, Structural, Clone, Copy, Debug)]
pub enum TriggerOptText {
    Attribute,
    ChangeSource,
    CalendarId,
    TitleContains,
    VariableName,
    ModeId,
    Payload,
    ValuePath,
    BatteryDevice,
}

/// `t` with the text field `f` set to `v`, where `t` has that field.
pub open spec fn trigger_with_text(t: TriggerValue, f: TriggerText, v: String) -> TriggerValue {
    match (t, f) {
        (TriggerValue::DeviceAvailabilityChanged { device_id: _, to, for_duration_secs }, TriggerText::DeviceId) => TriggerValue::DeviceAvailabilityChanged { device_id: v, to, for_duration_secs },
        (TriggerValue::ButtonEvent { device_id: _, button_number, event }, TriggerText::DeviceId) => TriggerValue::ButtonEvent { device_id: v, button_number, event },
        (TriggerValue::NumericThreshold { device_id: _, attribute, op, value, for_duration_secs }, TriggerText::DeviceId) => TriggerValue::NumericThreshold { device_id: v, attribute, op, value, for_duration_secs },
        (TriggerValue::NumericThreshold { device_id, attribute: _, op, value, for_duration_secs }, TriggerText::ThresholdAttribute) => TriggerValue::NumericThreshold { device_id, attribute: v, op, value, for_duration_secs },
        (TriggerValue::Cron { expression: _ }, TriggerText::CronExpression) => TriggerValue::Cron { expression: v },
        (TriggerValue::CustomEvent { event_type: _ }, TriggerText::EventType) => TriggerValue::CustomEvent { event_type: v },
        (TriggerValue::WebhookReceived { path: _ }, TriggerText::WebhookPath) => TriggerValue::WebhookReceived { path: v },
        (TriggerValue::MqttMessage { topic_pattern: _, payload, value_path, value_op, value_cmp }, TriggerText::TopicPattern) => TriggerValue::MqttMessage { topic_pattern: v, payload, value_path, value_op, value_cmp },
        (t, _) => t,
    }
}

/// `t` with the optional text field `f` set to `v`, where `t` has that field.
pub open spec fn trigger_with_opt_text(t: TriggerValue, f: TriggerOptText, v: Option<String>) -> TriggerValue {
    match (t, f) {
        (TriggerValue::DeviceStateChanged { device_id, device_ids, attribute: _, to, from, not_from, not_to, for_duration_secs, change_kind, change_source }, TriggerOptText::Attribute) => TriggerValue::DeviceStateChanged { device_id, device_ids, attribute: v, to, from, not_from, not_to, for_duration_secs, change_kind, change_source },
        (TriggerValue::DeviceStateChanged { device_id, device_ids, attribute, to, from, not_from, not_to, for_duration_secs, change_kind, change_source: _ }, TriggerOptText::ChangeSource) => TriggerValue::DeviceStateChanged { device_id, device_ids, attribute, to, from, not_from, not_to, for_duration_secs, change_kind, change_source: v },
        (TriggerValue::CalendarEvent { calendar_id: _, title_contains, offset_minutes }, TriggerOptText::CalendarId) => TriggerValue::CalendarEvent { calendar_id: v, title_contains, offset_minutes },
        (TriggerValue::CalendarEvent { calendar_id, title_contains: _, offset_minutes }, TriggerOptText::TitleContains) => TriggerValue::CalendarEvent { calendar_id, title_contains: v, offset_minutes },
        (TriggerValue::HubVariableChanged { name: _ }, TriggerOptText::VariableName) => TriggerValue::HubVariableChanged { name: v },
        (TriggerValue::ModeChanged { mode_id: _, to }, TriggerOptText::ModeId) => TriggerValue::ModeChanged { mode_id: v, to },
        (TriggerValue::MqttMessage { topic_pattern, payload: _, value_path, value_op, value_cmp }, TriggerOptText::Payload) => TriggerValue::MqttMessage { topic_pattern, payload: v, value_path, value_op, value_cmp },
        (TriggerValue::MqttMessage { topic_pattern, payload, value_path: _, value_op, value_cmp }, TriggerOptText::ValuePath) => TriggerValue::MqttMessage { topic_pattern, payload, value_path: v, value_op, value_cmp },
        (TriggerValue::DeviceBatteryLow { device_id: _ }, TriggerOptText::BatteryDevice) => TriggerValue::DeviceBatteryLow { device_id: v },
        (TriggerValue::DeviceBatteryRecovered { device_id: _ }, TriggerOptText::BatteryDevice) => TriggerValue::DeviceBatteryRecovered { device_id: v },
        (t, _) => t,
    }
}

fn set_trigger_text(t: &mut TriggerValue, f: TriggerText, v: String)
    ensures
        *final(t) == trigger_with_text(*old(t), f, v),
{
    match t {
        TriggerValue::DeviceAvailabilityChanged { device_id, .. } => match f {
            TriggerText::DeviceId => {
                *device_id = v;
            },
            _ => {},
        },
        TriggerValue::ButtonEvent { device_id, .. } => match f {
            TriggerText::DeviceId => {
                *device_id = v;
            },
            _ => {},
        },
        TriggerValue::NumericThreshold { device_id, attribute, .. } => match f {
            TriggerText::DeviceId => {
                *device_id = v;
            },
            TriggerText::ThresholdAttribute => {
                *attribute = v;
            },
            _ => {},
        },
        TriggerValue::Cron { expression, .. } => match f {
            TriggerText::CronExpression => {
                *expression = v;
            },
            _ => {},
        },
        TriggerValue::CustomEvent { event_type, .. } => match f {
            TriggerText::EventType => {
                *event_type = v;
            },
            _ => {},
        },
        TriggerValue::WebhookReceived { path, .. } => match f {
            TriggerText::WebhookPath => {
                *path = v;
            },
            _ => {},
        },
        TriggerValue::MqttMessage { topic_pattern, .. } => match f {
            TriggerText::TopicPattern => {
                *topic_pattern = v;
            },
            _ => {},
        },
        _ => {},
    }
}

fn set_trigger_opt_text(t: &mut TriggerValue, f: TriggerOptText, v: Option<String>)
    ensures
        *final(t) == trigger_with_opt_text(*old(t), f, v),
{
    match t {
        TriggerValue::DeviceStateChanged { attribute, change_source, .. } => match f {
            TriggerOptText::Attribute => {
                *attribute = v;
            },
            TriggerOptText::ChangeSource => {
                *change_source = v;
            },
            _ => {},
        },
        TriggerValue::CalendarEvent { calendar_id, title_contains, .. } => match f {
            TriggerOptText::CalendarId => {
                *calendar_id = v;
            },
            TriggerOptText::TitleContains => {
                *title_contains = v;
            },
            _ => {},
        },
        TriggerValue::HubVariableChanged { name, .. } => match f {
            TriggerOptText::VariableName => {
                *name = v;
            },
            _ => {},
        },
        TriggerValue::ModeChanged { mode_id, .. } => match f {
            TriggerOptText::ModeId => {
                *mode_id = v;
            },
            _ => {},
        },
        TriggerValue::MqttMessage { payload, value_path, .. } => match f {
            TriggerOptText::Payload => {
                *payload = v;
            },
            TriggerOptText::ValuePath => {
                *value_path = v;
            },
            _ => {},
        },
        TriggerValue::DeviceBatteryLow { device_id, .. } => match f {
            TriggerOptText::BatteryDevice => {
                *device_id = v;
            },
            _ => {},
        },
        TriggerValue::DeviceBatteryRecovered { device_id, .. } => match f {
            TriggerOptText::BatteryDevice => {
                *device_id = v;
            },
            _ => {},
        },
        _ => {},
    }
}


// ── Numbers ──────────────────────────────────────────────────────────────────
/// `raw.trim().parse::<u64>().ok()`, or the same as a `u32` where `narrow`.
pub open spec fn trimmed_number_of(raw: Seq<char>, narrow: bool) -> Option<u64> {
    match if narrow { parse_u32(trimmed(raw)) } else { parse_u64(trimmed(raw)) } {
        Some(n) => Some(n as u64),
        None => None,
    }
}

fn read_trimmed_number(raw: &str, narrow: bool) -> (r: Option<u64>)
    ensures
        r == trimmed_number_of(raw@, narrow),
{
    let t = trim(raw);
    let cs = chars_of(t.as_str());
    if narrow {
        match parse_u32_chars(&cs) {
            Some(n) => Some(n as u64),
            None => None,
        }
    } else {
        parse_u64_chars(&cs)
    }
}

/// `raw.parse::<i32>().ok()`: an `i64` reading inside the `i32` range.
pub open spec fn i32_of(raw: Seq<char>) -> Option<i32> {
    match parse_i64(raw) {
        Some(n) => if i32::MIN <= n <= i32::MAX {
            Some(n as i32)
        } else {
            None
        },
        None => None,
    }
}

fn read_i32(raw: &str) -> (r: Option<i32>)
    ensures
        r == i32_of(raw@),
{
    let cs = chars_of(raw);
    match parse_i64_chars(&cs) {
        Some(n) => if -2147483648 <= n && n <= 2147483647 {
            Some(n as i32)
        } else {
            None
        },
        None => None,
    }
}

/// `raw.parse::<u32>().ok()`.
pub open spec fn u32_of(raw: Seq<char>) -> Option<u32> {
    match parse_u32(raw) {
        Some(n) => Some(n as u32),
        None => None,
    }
}

fn read_u32(raw: &str) -> (r: Option<u32>)
    ensures
        r == u32_of(raw@),
{
    let cs = chars_of(raw);
    parse_u32_chars(&cs)
}

// ── Time of day ──────────────────────────────────────────────────────────────
/// The seconds after midnight that chrono reads from `HH:MM` text, or `None`.
pub uninterp spec fn clock_time_of(text: Seq<char>) -> Option<nat>;

/// `chrono::NaiveTime::parse_from_str(&format!("{hm}:00"), "%H:%M:%S")`, as
/// seconds after midnight (chrono keeps them under 86 400). What text chrono
/// reads is not restated: the result is named `clock_time_of`.
#[verifier::external_body]
pub(crate) fn parse_clock_time(hm: &str) -> (r: Option<u32>)
    ensures
        match r {
            Some(s) => clock_time_of(hm@) == Some(s as nat) && s < 86400,
            None => clock_time_of(hm@) is None,
        },
{
    let t = chrono::NaiveTime::parse_from_str(&format!("{hm}:00"), "%H:%M:%S").ok();
    t.map(|t| chrono::Timelike::num_seconds_from_midnight(&t))
}

// ── Pickers ──────────────────────────────────────────────────────────────────
/// The MQTT value operator a picker value names; anything else is none.
pub open spec fn mqtt_op_of(t: Seq<char>) -> Option<CompareOp> {
    if t == "Eq"@ {
        Some(CompareOp::Eq)
    } else if t == "Ne"@ {
        Some(CompareOp::Ne)
    } else if t == "Gt"@ {
        Some(CompareOp::Gt)
    } else if t == "Gte"@ {
        Some(CompareOp::Gte)
    } else if t == "Lt"@ {
        Some(CompareOp::Lt)
    } else if t == "Lte"@ {
        Some(CompareOp::Lte)
    } else {
        None
    }
}

fn parse_mqtt_op(t: &str) -> (r: Option<CompareOp>)
    ensures
        r == mqtt_op_of(t@),
{
    if crate::text::str_eq(t, "Eq") {
        Some(CompareOp::Eq)
    } else if crate::text::str_eq(t, "Ne") {
        Some(CompareOp::Ne)
    } else if crate::text::str_eq(t, "Gt") {
        Some(CompareOp::Gt)
    } else if crate::text::str_eq(t, "Gte") {
        Some(CompareOp::Gte)
    } else if crate::text::str_eq(t, "Lt") {
        Some(CompareOp::Lt)
    } else if crate::text::str_eq(t, "Lte") {
        Some(CompareOp::Lte)
    } else {
        None
    }
}

/// `online`, `offline`, or any.
pub open spec fn availability_of(t: Seq<char>) -> Option<bool> {
    if t == "online"@ {
        Some(true)
    } else if t == "offline"@ {
        Some(false)
    } else {
        None
    }
}

/// `on`, `off`, or any.
pub open spec fn mode_direction_of(t: Seq<char>) -> Option<bool> {
    if t == "on"@ {
        Some(true)
    } else if t == "off"@ {
        Some(false)
    } else {
        None
    }
}

/// The value a state trigger's match boxes compare with.
#[derive(PartialEq, Eq, Structural, Clone, Copy, Debug)]
pub enum MatchField {
    To,
    From,
    NotTo,
    NotFrom,
}

/// Whether `after` is the state trigger `before` with the match value `f`
/// set to `v`, every other field kept; other triggers are left as they are.
pub open spec fn match_set(before: TriggerValue, after: TriggerValue, f: MatchField, v: Option<JsonV>) -> bool {
    match before {
        TriggerValue::DeviceStateChanged {
            device_id,
            device_ids,
            attribute,
            to,
            from,
            not_from,
            not_to,
            for_duration_secs,
            change_kind,
            change_source,
        } => after matches TriggerValue::DeviceStateChanged {
            device_id: d,
            device_ids: ds,
            attribute: a,
            to: t2,
            from: f2,
            not_from: nf2,
            not_to: nt2,
            for_duration_secs: h,
            change_kind: k,
            change_source: s,
        } && d == device_id && ds@ == device_ids@ && a == attribute && h == for_duration_secs && k == change_kind
            && s == change_source && (if f == MatchField::To { opt_jv(t2) == v } else { t2 == to }) && (if f
            == MatchField::From { opt_jv(f2) == v } else { f2 == from }) && (if f == MatchField::NotFrom {
            opt_jv(nf2) == v
        } else {
            nf2 == not_from
        }) && (if f == MatchField::NotTo { opt_jv(nt2) == v } else { nt2 == not_to }),
        _ => after == before,
    }
}

/// Whether `after` is the MQTT trigger `before` with the expected value set
/// to `v`; other triggers are left as they are.
pub open spec fn mqtt_cmp_set(before: TriggerValue, after: TriggerValue, v: Option<JsonV>) -> bool {
    match before {
        TriggerValue::MqttMessage { topic_pattern, payload, value_path, value_op, value_cmp: _ } => after matches TriggerValue::MqttMessage {
            topic_pattern: t,
            payload: p,
            value_path: q,
            value_op: o,
            value_cmp: c,
        } && t == topic_pattern && p == payload && q == value_path && o == value_op && opt_jv(c) == v,
        _ => after == before,
    }
}

/// Whether `after` is the threshold trigger `before` with the threshold set
/// to `v`; other triggers are left as they are.
pub open spec fn threshold_set(before: TriggerValue, after: TriggerValue, v: JsonV) -> bool {
    match before {
        TriggerValue::NumericThreshold { device_id, attribute, op, value: _, for_duration_secs } => after matches TriggerValue::NumericThreshold {
            device_id: d,
            attribute: a,
            op: o,
            value: x,
            for_duration_secs: h,
        } && d == device_id && a == attribute && o == op && h == for_duration_secs && x@ == v,
        _ => after == before,
    }
}

pub open spec fn clock_secs(s: nat) -> u32 {
    s as u32
}

pub open spec fn wide_i64(n: i32) -> i64 {
    n as i64
}

pub open spec fn wide_u64(n: u32) -> u64 {
    n as u64
}

fn widen_i32(n: i32) -> (r: i64)
    ensures
        r == wide_i64(n),
{
    n as i64
}

fn widen_u32(n: u32) -> (r: u64)
    ensures
        r == wide_u64(n),
{
    n as u64
}

/// The trigger after one of its plain fields is set (see `TriggerEdit`).
pub open spec fn trigger_after(t: TriggerValue, e: TriggerEdit) -> TriggerValue {
    match e {
        TriggerEdit::Text(f, v) => trigger_with_text(t, f, v),
        TriggerEdit::OptText(f, v) => trigger_with_opt_text(t, f, if v@.len() == 0 { None } else { Some(v) }),
        TriggerEdit::HoldSecs(raw) => {
            let h = trimmed_number_of(raw@, false);
            match t {
                TriggerValue::DeviceStateChanged {
                    device_id,
                    device_ids,
                    attribute,
                    to,
                    from,
                    not_from,
                    not_to,
                    for_duration_secs: _,
                    change_kind,
                    change_source,
                } => TriggerValue::DeviceStateChanged {
                    device_id,
                    device_ids,
                    attribute,
                    to,
                    from,
                    not_from,
                    not_to,
                    for_duration_secs: h,
                    change_kind,
                    change_source,
                },
                TriggerValue::DeviceAvailabilityChanged { device_id, to, for_duration_secs: _ } => TriggerValue::DeviceAvailabilityChanged {
                    device_id,
                    to,
                    for_duration_secs: h,
                },
                TriggerValue::NumericThreshold { device_id, attribute, op, value, for_duration_secs: _ } => TriggerValue::NumericThreshold {
                    device_id,
                    attribute,
                    op,
                    value,
                    for_duration_secs: h,
                },
                _ => t,
            }
        },
        TriggerEdit::ButtonNumber(raw) => match t {
            TriggerValue::ButtonEvent { device_id, button_number: _, event } => TriggerValue::ButtonEvent {
                device_id,
                button_number: trimmed_number_of(raw@, true),
                event,
            },
            _ => t,
        },
        TriggerEdit::ButtonKind(raw) => match t {
            TriggerValue::ButtonEvent { device_id, button_number, event: _ } => TriggerValue::ButtonEvent {
                device_id,
                button_number,
                event: button_event_type_of(raw@),
            },
            _ => t,
        },
        TriggerEdit::ChangeKind(raw) => match t {
            TriggerValue::DeviceStateChanged {
                device_id,
                device_ids,
                attribute,
                to,
                from,
                not_from,
                not_to,
                for_duration_secs,
                change_kind: _,
                change_source,
            } => TriggerValue::DeviceStateChanged {
                device_id,
                device_ids,
                attribute,
                to,
                from,
                not_from,
                not_to,
                for_duration_secs,
                change_kind: change_kind_of(raw@),
                change_source,
            },
            _ => t,
        },
        TriggerEdit::Availability(raw) => match t {
            TriggerValue::DeviceAvailabilityChanged { device_id, to: _, for_duration_secs } => TriggerValue::DeviceAvailabilityChanged {
                device_id,
                to: availability_of(raw@),
                for_duration_secs,
            },
            _ => t,
        },
        TriggerEdit::ModeDirection(raw) => match t {
            TriggerValue::ModeChanged { mode_id, to: _ } => TriggerValue::ModeChanged { mode_id, to: mode_direction_of(raw@) },
            _ => t,
        },
        TriggerEdit::ThresholdKind(raw) => match t {
            TriggerValue::NumericThreshold { device_id, attribute, op: _, value, for_duration_secs } => TriggerValue::NumericThreshold {
                device_id,
                attribute,
                op: threshold_op_of(raw@),
                value,
                for_duration_secs,
            },
            _ => t,
        },
        TriggerEdit::SunKind(raw) => match t {
            TriggerValue::SunEvent { event: _, offset_minutes } => TriggerValue::SunEvent {
                event: sun_event_type_of(raw@),
                offset_minutes,
            },
            _ => t,
        },
        TriggerEdit::SunOffset(raw) => match (t, i32_of(raw@)) {
            (TriggerValue::SunEvent { event, offset_minutes: _ }, Some(n)) => TriggerValue::SunEvent { event, offset_minutes: n },
            (t, _) => t,
        },
        TriggerEdit::CalendarOffset(raw) => match (t, i32_of(raw@)) {
            (TriggerValue::CalendarEvent { calendar_id, title_contains, offset_minutes: _ }, Some(n)) => TriggerValue::CalendarEvent {
                calendar_id,
                title_contains,
                offset_minutes: wide_i64(n),
            },
            (t, _) => t,
        },
        TriggerEdit::EveryN(raw) => match (t, u32_of(raw@)) {
            (TriggerValue::Periodic { every_n: _, unit }, Some(n)) => TriggerValue::Periodic { every_n: wide_u64(n), unit },
            (t, _) => t,
        },
        TriggerEdit::Unit(raw) => match t {
            TriggerValue::Periodic { every_n, unit: _ } => TriggerValue::Periodic { every_n, unit: periodic_unit_of(raw@) },
            _ => t,
        },
        TriggerEdit::MqttOp(raw) => match t {
            TriggerValue::MqttMessage { topic_pattern, payload, value_path, value_op: _, value_cmp } => TriggerValue::MqttMessage {
                topic_pattern,
                payload,
                value_path,
                value_op: mqtt_op_of(raw@),
                value_cmp,
            },
            _ => t,
        },
        TriggerEdit::Time(raw) => match (t, clock_time_of(raw@)) {
            (TriggerValue::TimeOfDay { time_secs: _, days }, Some(s)) => TriggerValue::TimeOfDay { time_secs: clock_secs(s), days },
            (t, _) => t,
        },
        _ => t,
    }
}

/// One edit in the trigger editor, with what was typed or chosen.
pub enum TriggerEdit {
    Text(TriggerText, String),
    OptText(TriggerOptText, String),
    /// A hold duration box (seconds; blank or other text is none).
    HoldSecs(String),
    ButtonNumber(String),
    ButtonKind(String),
    ChangeKind(String),
    /// The availability direction picker (`online`, `offline`, any).
    Availability(String),
    /// The mode direction picker (`on`, `off`, any).
    ModeDirection(String),
    ThresholdKind(String),
    /// The threshold, as the box's `f64` reading where it has one.
    Threshold(Option<Json>),
    SunKind(String),
    SunOffset(String),
    CalendarOffset(String),
    EveryN(String),
    Unit(String),
    MqttOp(String),
    /// The MQTT expected value box: empty is none, else JSON text or the
    /// text as a string.
    MqttCmp(String),
    /// A state trigger's match box: blank is none, else JSON text or the
    /// text as a string.
    Match(MatchField, String),
    /// The time box, `HH:MM`; text chrono does not read changes nothing.
    Time(String),
    /// A day chip (Monday is 0), ticked or not.
    Day(u8, bool),
}

/// Applies an edit to a trigger. An edit of a field the trigger does not
/// have leaves it as it is, and so does a number or time the text does not
/// give.
pub fn edit_trigger(t: &mut TriggerValue, e: TriggerEdit)
    ensures
        match e {
            TriggerEdit::Match(f, raw) => match_set(
                *old(t),
                *final(t),
                f,
                match_value_of(raw@, crate::json::json_text_value(raw@)),
            ),
            TriggerEdit::MqttCmp(raw) => mqtt_cmp_set(
                *old(t),
                *final(t),
                if raw@.len() == 0 {
                    None
                } else {
                    Some(
                        match crate::json::json_text_value(raw@) {
                            Some(v) => v,
                            None => JsonV::Str(raw@),
                        },
                    )
                },
            ),
            TriggerEdit::Threshold(v) => match v {
                Some(j) => threshold_set(*old(t), *final(t), j@),
                None => *final(t) == *old(t),
            },
            TriggerEdit::Day(d, on) => match *old(t) {
                TriggerValue::TimeOfDay { time_secs, days } => *final(t) matches TriggerValue::TimeOfDay { time_secs: s, days: ds }
                    && s == time_secs && ds@ == if on {
                    if days@.contains(d) {
                        days@
                    } else {
                        days@.push(d)
                    }
                } else {
                    days@.filter(|x: u8| x != d)
                },
                _ => *final(t) == *old(t),
            },
            _ => *final(t) == trigger_after(*old(t), e),
        },
{
    match e {
        TriggerEdit::Text(f, v) => set_trigger_text(t, f, v),
        TriggerEdit::OptText(f, v) => {
            let o = if v.as_str().unicode_len() == 0 {
                None
            } else {
                Some(v)
            };
            set_trigger_opt_text(t, f, o);
        },
        TriggerEdit::HoldSecs(raw) => {
            let h = read_trimmed_number(raw.as_str(), false);
            match t {
                TriggerValue::DeviceStateChanged { for_duration_secs, .. } => {
                    *for_duration_secs = h;
                },
                TriggerValue::DeviceAvailabilityChanged { for_duration_secs, .. } => {
                    *for_duration_secs = h;
                },
                TriggerValue::NumericThreshold { for_duration_secs, .. } => {
                    *for_duration_secs = h;
                },
                _ => {},
            }
        },
        TriggerEdit::ButtonNumber(raw) => {
            let n = read_trimmed_number(raw.as_str(), true);
            match t {
                TriggerValue::ButtonEvent { button_number, .. } => {
                    *button_number = n;
                },
                _ => {},
            }
        },
        TriggerEdit::ButtonKind(raw) => {
            let k = parse_button_event_type(raw.as_str());
            match t {
                TriggerValue::ButtonEvent { event, .. } => {
                    *event = k;
                },
                _ => {},
            }
        },
        TriggerEdit::ChangeKind(raw) => {
            let k = parse_change_kind(raw.as_str());
            match t {
                TriggerValue::DeviceStateChanged { change_kind, .. } => {
                    *change_kind = k;
                },
                _ => {},
            }
        },
        TriggerEdit::Availability(raw) => {
            let k = availability_target(raw.as_str());
            match t {
                TriggerValue::DeviceAvailabilityChanged { to, .. } => {
                    *to = k;
                },
                _ => {},
            }
        },
        TriggerEdit::ModeDirection(raw) => {
            let k = mode_target(raw.as_str());
            match t {
                TriggerValue::ModeChanged { to, .. } => {
                    *to = k;
                },
                _ => {},
            }
        },
        TriggerEdit::ThresholdKind(raw) => {
            let k = parse_threshold_op(raw.as_str());
            match t {
                TriggerValue::NumericThreshold { op, .. } => {
                    *op = k;
                },
                _ => {},
            }
        },
        TriggerEdit::Threshold(v) => {
            match v {
                Some(j) => match t {
                    TriggerValue::NumericThreshold { value, .. } => {
                        *value = j;
                    },
                    _ => {},
                },
                None => {},
            }
        },
        TriggerEdit::SunKind(raw) => {
            let k = parse_sun_event_type(raw.as_str());
            match t {
                TriggerValue::SunEvent { event, .. } => {
                    *event = k;
                },
                _ => {},
            }
        },
        TriggerEdit::SunOffset(raw) => {
            match read_i32(raw.as_str()) {
                Some(n) => match t {
                    TriggerValue::SunEvent { offset_minutes, .. } => {
                        *offset_minutes = n;
                    },
                    _ => {},
                },
                None => {},
            }
        },
        TriggerEdit::CalendarOffset(raw) => {
            match read_i32(raw.as_str()) {
                Some(n) => match t {
                    TriggerValue::CalendarEvent { offset_minutes, .. } => {
                        *offset_minutes = widen_i32(n);
                    },
                    _ => {},
                },
                None => {},
            }
        },
        TriggerEdit::EveryN(raw) => {
            match read_u32(raw.as_str()) {
                Some(n) => match t {
                    TriggerValue::Periodic { every_n, .. } => {
                        *every_n = widen_u32(n);
                    },
                    _ => {},
                },
                None => {},
            }
        },
        TriggerEdit::Unit(raw) => {
            let k = parse_periodic_unit(raw.as_str());
            match t {
                TriggerValue::Periodic { unit, .. } => {
                    *unit = k;
                },
                _ => {},
            }
        },
        TriggerEdit::MqttOp(raw) => {
            let k = parse_mqtt_op(raw.as_str());
            match t {
                TriggerValue::MqttMessage { value_op, .. } => {
                    *value_op = k;
                },
                _ => {},
            }
        },
        TriggerEdit::MqttCmp(raw) => {
            let v = if raw.as_str().unicode_len() == 0 {
                None
            } else {
                Some(crate::rule_editor::json_or_text(raw.as_str()))
            };
            match t {
                TriggerValue::MqttMessage { value_cmp, .. } => {
                    *value_cmp = v;
                },
                _ => {},
            }
        },
        TriggerEdit::Match(f, raw) => {
            let v = match_value_text(raw.as_str());
            match t {
                TriggerValue::DeviceStateChanged { to, from, not_from, not_to, .. } => match f {
                    MatchField::To => {
                        *to = v;
                    },
                    MatchField::From => {
                        *from = v;
                    },
                    MatchField::NotTo => {
                        *not_to = v;
                    },
                    MatchField::NotFrom => {
                        *not_from = v;
                    },
                },
                _ => {},
            }
        },
        TriggerEdit::Time(raw) => {
            match parse_clock_time(raw.as_str()) {
                Some(s) => match t {
                    TriggerValue::TimeOfDay { time_secs, .. } => {
                        *time_secs = s;
                    },
                    _ => {},
                },
                None => {},
            }
        },
        TriggerEdit::Day(d, on) => {
            match t {
                TriggerValue::TimeOfDay { days, .. } => toggle_day(days, d, on),
                _ => {},
            }
        },
    }
}

// ── The watched devices of a state trigger ───────────────────────────────────
/// Whether `after` is the state trigger `before` watching `ids` (stored as
/// `stored_of` says), every other field kept; other triggers are left as
/// they are.
pub open spec fn watched_set(before: TriggerValue, after: TriggerValue, ids: Seq<Seq<char>>) -> bool {
    match before {
        TriggerValue::DeviceStateChanged {
            device_id: _,
            device_ids: _,
            attribute,
            to,
            from,
            not_from,
            not_to,
            for_duration_secs,
            change_kind,
            change_source,
        } => after matches TriggerValue::DeviceStateChanged {
            device_id: d,
            device_ids: ds,
            attribute: a,
            to: t2,
            from: f2,
            not_from: nf2,
            not_to: nt2,
            for_duration_secs: h,
            change_kind: k,
            change_source: c,
        } && (d@, strings_view(ds@)) == stored_of(ids) && a == attribute && t2 == to && f2 == from && nf2 == not_from
            && nt2 == not_to && h == for_duration_secs && k == change_kind && c == change_source,
        _ => after == before,
    }
}

/// The devices a trigger watches: those of a state trigger, else none.
pub open spec fn watched_by(t: TriggerValue) -> Seq<Seq<char>> {
    match t {
        TriggerValue::DeviceStateChanged { device_id, device_ids, .. } => watched_of(device_id@, strings_view(device_ids@)),
        _ => Seq::empty(),
    }
}

fn store_watched(t: &mut TriggerValue, ids: &Vec<String>)
    ensures
        watched_set(*old(t), *final(t), strings_view(ids@)),
{
    match t {
        TriggerValue::DeviceStateChanged { device_id, device_ids, .. } => {
            let (main, all) = store_devices(ids);
            *device_id = main;
            *device_ids = all;
        },
        _ => {},
    }
}

fn watched_list(t: &TriggerValue) -> (r: Vec<String>)
    ensures
        strings_view(r@) == watched_by(*t),
{
    match t {
        TriggerValue::DeviceStateChanged { device_id, device_ids, .. } => watched_devices(device_id.as_str(), device_ids),
        _ => {
            let r: Vec<String> = Vec::new();
            assert(strings_view(r@) =~= Seq::<Seq<char>>::empty());
            r
        },
    }
}

/// Adding a device from the state trigger's dropdown: a named device that
/// is not watched yet joins the end, and the list is stored again; an
/// empty choice changes nothing.
pub fn add_watched_device(t: &mut TriggerValue, id: &str)
    ensures
        is_state_trigger(*old(t)) && id@.len() > 0 ==> watched_set(
            *old(t),
            *final(t),
            ids_after_add(watched_by(*old(t)), id@),
        ),
        !is_state_trigger(*old(t)) || id@.len() == 0 ==> *final(t) == *old(t),
{
    if id.unicode_len() == 0 {
        return;
    }
    let mut ids = watched_list(t);
    add_watched(&mut ids, id);
    store_watched(t, &ids);
}

/// Whether a trigger is a device state trigger.
pub open spec fn is_state_trigger(t: TriggerValue) -> bool {
    t is DeviceStateChanged
}

/// Removing a watched device's chip.
pub fn remove_watched_device(t: &mut TriggerValue, i: usize)
    requires
        is_state_trigger(*old(t)) ==> i < watched_by(*old(t)).len(),
    ensures
        is_state_trigger(*old(t)) ==> watched_set(*old(t), *final(t), watched_by(*old(t)).remove(i as int)),
        !is_state_trigger(*old(t)) ==> *final(t) == *old(t),
{
    if !matches!(t, TriggerValue::DeviceStateChanged { .. }) {
        return;
    }
    let mut ids = watched_list(t);
    let ghost before = ids@;
    ids.remove(i);
    assert(strings_view(ids@) =~= strings_view(before).remove(i as int));
    store_watched(t, &ids);
}


/// Picking the MQTT value operator stores the comparison of the same name
/// (`Eq`, `Ne`, `Gt`, `Gte`, `Lt`, `Lte`), and any other value stores none;
/// so different picker values never store the same operator.
pub proof fn law_mqtt_op_named(t: TriggerValue, raw: String, op: CompareOp)
    requires
        t is MqttMessage,
    ensures
        trigger_after(t, TriggerEdit::MqttOp(raw)) matches TriggerValue::MqttMessage { value_op, .. } && (value_op
            == Some(op)) == (raw@ == compare_op_text(op)),
        trigger_after(t, TriggerEdit::MqttOp(raw)) matches TriggerValue::MqttMessage { value_op, .. } && (value_op
            is None) == (forall|o: CompareOp| raw@ != compare_op_text(o)),
{
    reveal_strlit("Eq");
    reveal_strlit("Ne");
    reveal_strlit("Gt");
    reveal_strlit("Gte");
    reveal_strlit("Lt");
    reveal_strlit("Lte");
    assert("Eq"@[0] != "Ne"@[0] && "Eq"@[0] != "Gt"@[0] && "Eq"@[0] != "Lt"@[0]);
    assert("Gt"@.len() != "Gte"@.len() && "Lt"@.len() != "Lte"@.len() && "Gte"@[0] != "Lte"@[0]);
    assert("Ne"@[0] != "Gt"@[0] && "Ne"@[0] != "Lt"@[0] && "Gt"@[0] != "Lt"@[0]);
    assert("Eq"@.len() != "Gte"@.len() && "Eq"@.len() != "Lte"@.len());
    if mqtt_op_of(raw@) is None {
        assert forall|o: CompareOp| raw@ != compare_op_text(o) by {
            if raw@ == compare_op_text(o) {
                match o {
                    CompareOp::Eq => {},
                    CompareOp::Ne => {},
                    CompareOp::Gt => {},
                    CompareOp::Gte => {},
                    CompareOp::Lt => {},
                    CompareOp::Lte => {},
                }
            }
        }
    } else {
        let o = mqtt_op_of(raw@)->0;
        assert(raw@ == compare_op_text(o));
    }
}

/// The availability direction picker stores `true` for `online`, `false`
/// for `offline`, and nothing for any other value.
pub proof fn law_availability_direction(t: TriggerValue, raw: String)
    requires
        t is DeviceAvailabilityChanged,
    ensures
        trigger_after(t, TriggerEdit::Availability(raw)) matches TriggerValue::DeviceAvailabilityChanged { to, .. } && (
        to == Some(true)) == (raw@ == "online"@) && (to == Some(false)) == (raw@ == "offline"@),
{
    reveal_strlit("online");
    reveal_strlit("offline");
    assert("online"@.len() != "offline"@.len());
}

/// The mode direction picker stores `true` for `on`, `false` for `off`, and
/// nothing for any other value.
pub proof fn law_mode_direction(t: TriggerValue, raw: String)
    requires
        t is ModeChanged,
    ensures
        trigger_after(t, TriggerEdit::ModeDirection(raw)) matches TriggerValue::ModeChanged { to, .. } && (to == Some(
            true,
        )) == (raw@ == "on"@) && (to == Some(false)) == (raw@ == "off"@),
{
    reveal_strlit("on");
    reveal_strlit("off");
    assert("on"@.len() != "off"@.len());
}

} // verus!
