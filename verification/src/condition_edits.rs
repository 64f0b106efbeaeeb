//! The condition editor's field edits: what typing into or choosing in
//! each of a condition's fields does to the condition.
use vstd::prelude::*;
use crate::text::{parse_u64, chars_of, parse_u64_chars};
use crate::json::JsonV;
use crate::rule_options::{compare_op_of, parse_compare_op, change_kind_of, parse_change_kind};
use crate::rule_editor::{condition_value_of, condition_value_text, json_or_text};
use crate::rule_values::ConditionValue;
use crate::trigger_edits::{clock_time_of, parse_clock_time, clock_secs};

verus! {

/// A text field of a condition, set to the text as typed.
#[derive(PartialEq, Eq, Structural, Clone, Copy, Debug)]
pub enum ConditionText {
    DeviceId,
    Attribute,
    Script,
    Name,
    ModeId,
}

/// An optional text field of a condition: empty text clears it.
#[derive(PartialEq, Eq, Structural, Clone, Copy, Debug)]
pub enum ConditionOptText {
    Source,
    ActorId,
    ActorName,
    CalendarId,
    TitleContains,
}

/// `c` with the text field `f` set to `v`, where `c` has that field.
pub open spec fn condition_with_text(c: ConditionValue, f: ConditionText, v: String) -> ConditionValue {
    match (c, f) {
        (ConditionValue::DeviceState { device_id: _, attribute, op, value }, ConditionText::DeviceId) => ConditionValue::DeviceState { device_id: v, attribute, op, value },
        (ConditionValue::TimeElapsed { device_id: _, attribute, duration_secs }, ConditionText::DeviceId) => ConditionValue::TimeElapsed { device_id: v, attribute, duration_secs },
        (ConditionValue::DeviceLastChange { device_id: _, kind, source, actor_id, actor_name }, ConditionText::DeviceId) => ConditionValue::DeviceLastChange { device_id: v, kind, source, actor_id, actor_name },
        (ConditionValue::DeviceState { device_id, attribute: _, op, value }, ConditionText::Attribute) => ConditionValue::DeviceState { device_id, attribute: v, op, value },
        (ConditionValue::TimeElapsed { device_id, attribute: _, duration_secs }, ConditionText::Attribute) => ConditionValue::TimeElapsed { device_id, attribute: v, duration_secs },
        (ConditionValue::ScriptExpression { script: _ }, ConditionText::Script) => ConditionValue::ScriptExpression { script: v },
        (ConditionValue::PrivateBooleanIs { name: _, value }, ConditionText::Name) => ConditionValue::PrivateBooleanIs { name: v, value },
        (ConditionValue::HubVariable { name: _, op, value }, ConditionText::Name) => ConditionValue::HubVariable { name: v, op, value },
        (ConditionValue::ModeIs { mode_id: _, on }, ConditionText::ModeId) => ConditionValue::ModeIs { mode_id: v, on },
        (c, _) => c,
    }
}

/// `c` with the optional text field `f` set to `v`, where `c` has that field.
pub open spec fn condition_with_opt_text(c: ConditionValue, f: ConditionOptText, v: Option<String>) -> ConditionValue {
    match (c, f) {
        (ConditionValue::DeviceLastChange { device_id, kind, source: _, actor_id, actor_name }, ConditionOptText::Source) => ConditionValue::DeviceLastChange { device_id, kind, source: v, actor_id, actor_name },
        (ConditionValue::DeviceLastChange { device_id, kind, source, actor_id: _, actor_name }, ConditionOptText::ActorId) => ConditionValue::DeviceLastChange { device_id, kind, source, actor_id: v, actor_name },
        (ConditionValue::DeviceLastChange { device_id, kind, source, actor_id, actor_name: _ }, ConditionOptText::ActorName) => ConditionValue::DeviceLastChange { device_id, kind, source, actor_id, actor_name: v },
        (ConditionValue::CalendarActive { calendar_id: _, title_contains }, ConditionOptText::CalendarId) => ConditionValue::CalendarActive { calendar_id: v, title_contains },
        (ConditionValue::CalendarActive { calendar_id, title_contains: _ }, ConditionOptText::TitleContains) => ConditionValue::CalendarActive { calendar_id, title_contains: v },
        (c, _) => c,
    }
}

fn set_condition_text(c: &mut ConditionValue, f: ConditionText, v: String)
    ensures
        *final(c) == condition_with_text(*old(c), f, v),
{
    match c {
        ConditionValue::DeviceState { device_id, attribute, .. } => match f {
            ConditionText::DeviceId => {
                *device_id = v;
            },
            ConditionText::Attribute => {
                *attribute = v;
            },
            _ => {},
        },
        ConditionValue::TimeElapsed { device_id, attribute, .. } => match f {
            ConditionText::DeviceId => {
                *device_id = v;
            },
            ConditionText::Attribute => {
                *attribute = v;
            },
            _ => {},
        },
        ConditionValue::DeviceLastChange { device_id, .. } => match f {
            ConditionText::DeviceId => {
                *device_id = v;
            },
            _ => {},
        },
        ConditionValue::ScriptExpression { script, .. } => match f {
            ConditionText::Script => {
                *script = v;
            },
            _ => {},
        },
        ConditionValue::PrivateBooleanIs { name, .. } => match f {
            ConditionText::Name => {
                *name = v;
            },
            _ => {},
        },
        ConditionValue::HubVariable { name, .. } => match f {
            ConditionText::Name => {
                *name = v;
            },
            _ => {},
        },
        ConditionValue::ModeIs { mode_id, .. } => match f {
            ConditionText::ModeId => {
                *mode_id = v;
            },
            _ => {},
        },
        _ => {},
    }
}

fn set_condition_opt_text(c: &mut ConditionValue, f: ConditionOptText, v: Option<String>)
    ensures
        *final(c) == condition_with_opt_text(*old(c), f, v),
{
    match c {
        ConditionValue::DeviceLastChange { source, actor_id, actor_name, .. } => match f {
            ConditionOptText::Source => {
                *source = v;
            },
            ConditionOptText::ActorId => {
                *actor_id = v;
            },
            ConditionOptText::ActorName => {
                *actor_name = v;
            },
            _ => {},
        },
        ConditionValue::CalendarActive { calendar_id, title_contains, .. } => match f {
            ConditionOptText::CalendarId => {
                *calendar_id = v;
            },
            ConditionOptText::TitleContains => {
                *title_contains = v;
            },
            _ => {},
        },
        _ => {},
    }
}


/// Whether `after` is `before` with its compared value set to `v`: the
/// value of a device state or hub variable condition, every other field
/// kept; other conditions are left as they are.
pub open spec fn compared_value_set(before: ConditionValue, after: ConditionValue, v: JsonV) -> bool {
    match before {
        ConditionValue::DeviceState { device_id, attribute, op, value: _ } => after matches ConditionValue::DeviceState {
            device_id: d,
            attribute: a,
            op: o,
            value: x,
        } && d == device_id && a == attribute && o == op && x@ == v,
        ConditionValue::HubVariable { name, op, value: _ } => after matches ConditionValue::HubVariable { name: n, op: o, value: x }
            && n == name && o == op && x@ == v,
        _ => after == before,
    }
}

/// The value a condition's value box gives: for a device state, blank is
/// `true` (see `condition_value_of`); for a hub variable, JSON text or the
/// text as a string.
pub open spec fn compared_value_of(c: ConditionValue, raw: Seq<char>) -> JsonV {
    match c {
        ConditionValue::DeviceState { .. } => condition_value_of(raw, crate::json::json_text_value(raw)),
        _ => match crate::json::json_text_value(raw) {
            Some(v) => v,
            None => JsonV::Str(raw),
        },
    }
}

/// One edit in the condition editor, with what was typed or chosen.
pub enum ConditionEdit {
    Text(ConditionText, String),
    OptText(ConditionOptText, String),
    /// The comparison picker (`Ne`, `Gt`, `Gte`, `Lt`, `Lte`; else `Eq`).
    Op(String),
    /// The compared value box.
    Value(String),
    /// The time window's start, `HH:MM`.
    Start(String),
    /// The time window's end, `HH:MM`.
    End(String),
    /// The elapsed time in seconds; text that is not a number changes nothing.
    Duration(String),
    /// The change origin picker.
    Kind(String),
    /// A true/false picker: the private boolean's value, or whether the mode
    /// is on.
    Flag(String),
}

/// The condition after a plain field is set (see `ConditionEdit`).
pub open spec fn condition_after(c: ConditionValue, e: ConditionEdit) -> ConditionValue {
    match e {
        ConditionEdit::Text(f, v) => condition_with_text(c, f, v),
        ConditionEdit::OptText(f, v) => condition_with_opt_text(c, f, if v@.len() == 0 { None } else { Some(v) }),
        ConditionEdit::Op(raw) => match c {
            ConditionValue::DeviceState { device_id, attribute, op: _, value } => ConditionValue::DeviceState {
                device_id,
                attribute,
                op: compare_op_of(raw@),
                value,
            },
            ConditionValue::HubVariable { name, op: _, value } => ConditionValue::HubVariable { name, op: compare_op_of(raw@), value },
            _ => c,
        },
        ConditionEdit::Start(raw) => match (c, clock_time_of(raw@)) {
            (ConditionValue::TimeWindow { start_secs: _, end_secs }, Some(s)) => ConditionValue::TimeWindow {
                start_secs: clock_secs(s),
                end_secs,
            },
            (c, _) => c,
        },
        ConditionEdit::End(raw) => match (c, clock_time_of(raw@)) {
            (ConditionValue::TimeWindow { start_secs, end_secs: _ }, Some(s)) => ConditionValue::TimeWindow {
                start_secs,
                end_secs: clock_secs(s),
            },
            (c, _) => c,
        },
        ConditionEdit::Duration(raw) => match (c, parse_u64(raw@)) {
            (ConditionValue::TimeElapsed { device_id, attribute, duration_secs: _ }, Some(n)) => ConditionValue::TimeElapsed {
                device_id,
                attribute,
                duration_secs: n as u64,
            },
            (c, _) => c,
        },
        ConditionEdit::Kind(raw) => match c {
            ConditionValue::DeviceLastChange { device_id, kind: _, source, actor_id, actor_name } => ConditionValue::DeviceLastChange {
                device_id,
                kind: change_kind_of(raw@),
                source,
                actor_id,
                actor_name,
            },
            _ => c,
        },
        ConditionEdit::Flag(raw) => match c {
            ConditionValue::PrivateBooleanIs { name, value: _ } => ConditionValue::PrivateBooleanIs { name, value: raw@ == "true"@ },
            ConditionValue::ModeIs { mode_id, on: _ } => ConditionValue::ModeIs { mode_id, on: raw@ == "true"@ },
            _ => c,
        },
        ConditionEdit::Value(_) => c,
    }
}

/// Applies an edit to a condition. An edit of a field the condition does
/// not have leaves it as it is, and so does a time or number that the text
/// does not give.
pub fn edit_condition(c: &mut ConditionValue, e: ConditionEdit)
    ensures
        match e {
            ConditionEdit::Value(raw) => compared_value_set(*old(c), *final(c), compared_value_of(*old(c), raw@)),
            _ => *final(c) == condition_after(*old(c), e),
        },
{
    match e {
        ConditionEdit::Text(f, v) => set_condition_text(c, f, v),
        ConditionEdit::OptText(f, v) => {
            let o = if v.as_str().unicode_len() == 0 {
                None
            } else {
                Some(v)
            };
            set_condition_opt_text(c, f, o);
        },
        ConditionEdit::Op(raw) => {
            let k = parse_compare_op(raw.as_str());
            match c {
                ConditionValue::DeviceState { op, .. } => {
                    *op = k;
                },
                ConditionValue::HubVariable { op, .. } => {
                    *op = k;
                },
                _ => {},
            }
        },
        ConditionEdit::Value(raw) => {
            match c {
                ConditionValue::DeviceState { value, .. } => {
                    *value = condition_value_text(raw.as_str());
                },
                ConditionValue::HubVariable { value, .. } => {
                    *value = json_or_text(raw.as_str());
                },
                _ => {},
            }
        },
        ConditionEdit::Start(raw) => {
            match parse_clock_time(raw.as_str()) {
                Some(s) => match c {
                    ConditionValue::TimeWindow { start_secs, .. } => {
                        *start_secs = s;
                    },
                    _ => {},
                },
                None => {},
            }
        },
        ConditionEdit::End(raw) => {
            match parse_clock_time(raw.as_str()) {
                Some(s) => match c {
                    ConditionValue::TimeWindow { end_secs, .. } => {
                        *end_secs = s;
                    },
                    _ => {},
                },
                None => {},
            }
        },
        ConditionEdit::Duration(raw) => {
            let cs = chars_of(raw.as_str());
            match parse_u64_chars(&cs) {
                Some(n) => match c {
                    ConditionValue::TimeElapsed { duration_secs, .. } => {
                        *duration_secs = n;
                    },
                    _ => {},
                },
                None => {},
            }
        },
        ConditionEdit::Kind(raw) => {
            let k = parse_change_kind(raw.as_str());
            match c {
                ConditionValue::DeviceLastChange { kind, .. } => {
                    *kind = k;
                },
                _ => {},
            }
        },
        ConditionEdit::Flag(raw) => {
            let b = crate::text::str_eq(raw.as_str(), "true");
            match c {
                ConditionValue::PrivateBooleanIs { value, .. } => {
                    *value = b;
                },
                ConditionValue::ModeIs { on, .. } => {
                    *on = b;
                },
                _ => {},
            }
        },
    }
}


/// The true/false picker stores `true` exactly for the value `true`: on a
/// private boolean condition as its value, on a mode condition as whether
/// the mode must be on. The name and mode stay.
pub proof fn law_flag_picker(c: ConditionValue, raw: String)
    ensures
        c matches ConditionValue::PrivateBooleanIs { name, .. } ==> condition_after(c, ConditionEdit::Flag(raw)) matches ConditionValue::PrivateBooleanIs {
            name: n,
            value,
        } && n == name && value == (raw@ == "true"@),
        c matches ConditionValue::ModeIs { mode_id, .. } ==> condition_after(c, ConditionEdit::Flag(raw)) matches ConditionValue::ModeIs {
            mode_id: m,
            on,
        } && m == mode_id && on == (raw@ == "true"@),
{
}

/// A device state condition's blank value box compares with `true`; any
/// other text compares with its JSON value, or with itself as a string
/// where it is not JSON.
pub proof fn law_device_value_box(c: ConditionValue, raw: Seq<char>)
    requires
        c is DeviceState,
    ensures
        crate::text::trimmed(raw).len() == 0 ==> compared_value_of(c, raw) == JsonV::Bool(true),
        crate::text::trimmed(raw).len() > 0 ==> compared_value_of(c, raw) == match crate::json::json_text_value(raw) {
            Some(v) => v,
            None => JsonV::Str(raw),
        },
{
}

} // verus!
