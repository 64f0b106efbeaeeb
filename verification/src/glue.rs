//! Glue devices: helper devices (switches, timers, counters, …) that wire
//! automations together. Their type table, the one-line value summary of
//! each type, the list's search and order, and the requests the pages send.
use vstd::prelude::*;
use crate::text::{
    str_eq, owned, lowercase, trim, chars_of, contains, contains_sub, unicode_lowercase, trimmed,
    string_of, push_str, push_chars, u64_decimal, i64_decimal, nat_decimal, int_decimal, concat3,
    strings_view,
};
use crate::json::{
    Json, JsonV, json_get, deep_clone, str_at, str_at_or, bool_field, bool_at, u64_field, u64_at,
    i64_field, i64_at, make_object, json_string, opt_view, entries_view, string_items,
};
use crate::sort::{KeyPart, KeyPartV, key_view, keys_view, stable_sorted, sort_by_keys, lemma_sorted_map};

verus! {

// ── Type table ───────────────────────────────────────────────────────────────
/// The glue types: key, label, description.
pub open spec fn glue_types() -> Seq<(Seq<char>, Seq<char>, Seq<char>)> {
    seq![
        ("switch"@, "Switch"@, "On/off toggle for automation flags"@),
        ("timer"@, "Timer"@, "Countdown timer with start/pause/cancel"@),
        ("counter"@, "Counter"@, "Tracks event counts with increment/decrement"@),
        ("number"@, "Input Number"@, "Adjustable numeric value with min/max"@),
        ("select"@, "Input Select"@, "Dropdown with predefined options"@),
        ("text"@, "Input Text"@, "Stored string value"@),
        ("button"@, "Button"@, "Stateless trigger — fires event on press"@),
        ("datetime"@, "Date/Time"@, "Stored date and/or time"@),
        ("group"@, "Device Group"@, "Combines devices into one (any/all logic)"@),
        ("threshold"@, "Threshold"@, "Binary sensor from numeric crossing"@),
        ("schedule"@, "Schedule"@, "Weekly time blocks → on/off"@),
    ]
}

/// The label of the first table entry with the key, else the key itself.
pub open spec fn label_from(t: Seq<char>, i: int) -> Seq<char>
    decreases 11 - i,
{
    if i < 0 || i >= 11 {
        t
    } else if glue_types()[i].0 == t {
        glue_types()[i].1
    } else {
        label_from(t, i + 1)
    }
}

pub open spec fn glue_type_label(t: Seq<char>) -> Seq<char> {
    label_from(t, 0)
}

fn glue_type_table() -> (r: Vec<(&'static str, &'static str, &'static str)>)
    ensures
        r@.len() == 11,
        forall|i: int|
            0 <= i < 11 ==> (#[trigger] r@[i]).0@ == glue_types()[i].0 && r@[i].1@ == glue_types()[i].1
                && r@[i].2@ == glue_types()[i].2,
{
    let v = vec![
        ("switch", "Switch", "On/off toggle for automation flags"),
        ("timer", "Timer", "Countdown timer with start/pause/cancel"),
        ("counter", "Counter", "Tracks event counts with increment/decrement"),
        ("number", "Input Number", "Adjustable numeric value with min/max"),
        ("select", "Input Select", "Dropdown with predefined options"),
        ("text", "Input Text", "Stored string value"),
        ("button", "Button", "Stateless trigger — fires event on press"),
        ("datetime", "Date/Time", "Stored date and/or time"),
        ("group", "Device Group", "Combines devices into one (any/all logic)"),
        ("threshold", "Threshold", "Binary sensor from numeric crossing"),
        ("schedule", "Schedule", "Weekly time blocks → on/off"),
    ];
    v
}

/// The label of a glue type.
pub fn type_label(t: &str) -> (r: String)
    ensures
        r@ == glue_type_label(t@),
{
    let table = glue_type_table();
    let mut i: usize = 0;
    while i < table.len()
        invariant
            table@.len() == 11,
            forall|k: int|
                0 <= k < 11 ==> (#[trigger] table@[k]).0@ == glue_types()[k].0 && table@[k].1@
                    == glue_types()[k].1,
            i <= 11,
            label_from(t@, 0) == label_from(t@, i as int),
        decreases 11 - i,
    {
        if str_eq(table[i].0, t) {
            return owned(table[i].1);
        }
        i = i + 1;
    }
    owned(t)
}

/// The options of the create form's type picker: the key, and
/// `label — description`.
pub fn glue_type_options() -> (r: Vec<(String, String)>)
    ensures
        r@.len() == 11,
        forall|i: int|
            0 <= i < 11 ==> (#[trigger] r@[i]).0@ == glue_types()[i].0 && r@[i].1@ == glue_types()[i].1
                + " — "@ + glue_types()[i].2,
{
    let table = glue_type_table();
    let mut out: Vec<(String, String)> = Vec::new();
    let mut i: usize = 0;
    while i < table.len()
        invariant
            table@.len() == 11,
            forall|k: int|
                0 <= k < 11 ==> (#[trigger] table@[k]).0@ == glue_types()[k].0 && table@[k].1@
                    == glue_types()[k].1 && table@[k].2@ == glue_types()[k].2,
            i <= 11,
            out@.len() == i,
            forall|k: int|
                0 <= k < i ==> (#[trigger] out@[k]).0@ == glue_types()[k].0 && out@[k].1@
                    == glue_types()[k].1 + " — "@ + glue_types()[k].2,
        decreases 11 - i,
    {
        out.push((owned(table[i].0), concat3(table[i].1, " — ", table[i].2)));
        i = i + 1;
    }
    out
}

/// The icon of a glue type (a Phosphor icon name).
pub open spec fn glue_type_icon(t: Seq<char>) -> Seq<char> {
    if t == "counter"@ {
        "hash"@
    } else if t == "number"@ {
        "number-square-one"@
    } else if t == "select"@ {
        "list"@
    } else if t == "text"@ {
        "text-aa"@
    } else if t == "button"@ {
        "cursor-click"@
    } else if t == "datetime"@ {
        "clock"@
    } else if t == "group"@ {
        "squares-four"@
    } else if t == "threshold"@ {
        "thermometer-simple"@
    } else if t == "schedule"@ {
        "calendar"@
    } else if t == "timer"@ {
        "timer"@
    } else if t == "switch"@ || t == "virtual_switch"@ {
        "toggle-right"@
    } else {
        "puzzle-piece"@
    }
}

pub fn type_icon(t: &str) -> (r: &'static str)
    ensures
        r@ == glue_type_icon(t@),
{
    if str_eq(t, "counter") {
        "hash"
    } else if str_eq(t, "number") {
        "number-square-one"
    } else if str_eq(t, "select") {
        "list"
    } else if str_eq(t, "text") {
        "text-aa"
    } else if str_eq(t, "button") {
        "cursor-click"
    } else if str_eq(t, "datetime") {
        "clock"
    } else if str_eq(t, "group") {
        "squares-four"
    } else if str_eq(t, "threshold") {
        "thermometer-simple"
    } else if str_eq(t, "schedule") {
        "calendar"
    } else if str_eq(t, "timer") {
        "timer"
    } else if str_eq(t, "switch") || str_eq(t, "virtual_switch") {
        "toggle-right"
    } else {
        "puzzle-piece"
    }
}

/// A device's type text: its `device_type` string, or `unknown`.
pub open spec fn device_type_of(d: JsonV) -> Seq<char> {
    str_at_or(d, "device_type"@, "unknown"@)
}

pub fn device_type_str(d: &Json) -> (r: String)
    ensures
        r@ == device_type_of(d@),
{
    crate::json::str_field_or(d, "device_type", "unknown")
}

/// The plugins whose devices are glue devices.
pub open spec fn glue_plugin(plugin_id: Seq<char>) -> bool {
    plugin_id == "core.glue"@ || plugin_id == "core.timer"@ || plugin_id == "core.switch"@
}

pub fn is_glue_device(plugin_id: &str) -> (r: bool)
    ensures
        r == glue_plugin(plugin_id@),
{
    str_eq(plugin_id, "core.glue") || str_eq(plugin_id, "core.timer") || str_eq(plugin_id, "core.switch")
}

// ── Value summaries ──────────────────────────────────────────────────────────
/// The number of UTF-8 bytes that encode a character.
pub open spec fn utf8_width(c: char) -> nat {
    if (c as u32) < 0x80 {
        1
    } else if (c as u32) < 0x800 {
        2
    } else if (c as u32) < 0x10000 {
        3
    } else {
        4
    }
}

/// The length of a string in bytes (`str::len`).
pub open spec fn utf8_len(s: Seq<char>) -> nat
    decreases s.len(),
{
    if s.len() == 0 {
        0
    } else {
        utf8_len(s.drop_last()) + utf8_width(s.last())
    }
}

/// Whether a text longer than 30 bytes has a character boundary at byte 30,
/// which `&v[..30]` needs (it panics otherwise).
pub open spec fn cut_ok(v: Seq<char>) -> bool {
    utf8_len(v) > 30 ==> exists|k: int| 0 <= k <= v.len() && #[trigger] utf8_len(v.take(k)) == 30
}

/// A text cut to its first 30 bytes and an ellipsis when it is longer.
pub open spec fn cut_30(v: Seq<char>) -> Seq<char> {
    if utf8_len(v) > 30 {
        v.take(choose|k: int| 0 <= k <= v.len() && #[trigger] utf8_len(v.take(k)) == 30) + "…"@
    } else {
        v
    }
}

proof fn lemma_utf8_step(v: Seq<char>, k: int)
    requires
        0 <= k < v.len(),
    ensures
        utf8_len(v.take(k + 1)) == utf8_len(v.take(k)) + utf8_width(v[k]),
{
    assert(v.take(k + 1).drop_last() =~= v.take(k));
}

/// Longer prefixes take more bytes.
proof fn lemma_utf8_mono(v: Seq<char>, a: int, b: int)
    requires
        0 <= a < b <= v.len(),
    ensures
        utf8_len(v.take(a)) < utf8_len(v.take(b)),
    decreases b - a,
{
    lemma_utf8_step(v, b - 1);
    if a < b - 1 {
        lemma_utf8_mono(v, a, b - 1);
    }
}

fn utf8_width_of(c: char) -> (r: u64)
    ensures
        r as nat == utf8_width(c),
{
    let n = c as u32;
    if n < 0x80 {
        1
    } else if n < 0x800 {
        2
    } else if n < 0x10000 {
        3
    } else {
        4
    }
}

/// `if v.len() > 30 { format!("{}…", &v[..30]) } else { v.to_string() }`.
pub fn cut_text_30(v: &Vec<char>) -> (r: Vec<char>)
    requires
        cut_ok(v@),
    ensures
        r@ == cut_30(v@),
{
    let mut i: usize = 0;
    let mut bytes: u64 = 0;
    assert(v@.take(0) =~= Seq::<char>::empty());
    while i < v.len() && bytes < 30
        invariant
            i <= v.len(),
            bytes == utf8_len(v@.take(i as int)),
            bytes <= 33,
            i > 0 ==> utf8_len(v@.take(i - 1)) < 30,
        decreases v.len() - i,
    {
        proof {
            lemma_utf8_step(v@, i as int);
        }
        bytes = bytes + utf8_width_of(v[i]);
        i = i + 1;
    }
    assert(v@.take(v.len() as int) =~= v@);
    if bytes < 30 {
        return clone_chars(v);
    }
    if bytes == 30 {
        if i == v.len() {
            return clone_chars(v);
        }
        proof {
            lemma_utf8_mono(v@, i as int, v.len() as int);
            let k = choose|k: int| 0 <= k <= v@.len() && #[trigger] utf8_len(v@.take(k)) == 30;
            if k < i {
                lemma_utf8_mono(v@, k, i as int);
            } else if k > i {
                lemma_utf8_mono(v@, i as int, k);
            }
        }
        let mut out: Vec<char> = Vec::new();
        let mut j: usize = 0;
        while j < i
            invariant
                j <= i <= v.len(),
                out@ == v@.take(j as int),
            decreases i - j,
        {
            out.push(v[j]);
            j = j + 1;
            assert(out@ =~= v@.take(j as int));
        }
        push_str(&mut out, "…");
        return out;
    }
    // Byte 30 falls inside the last character read: no boundary there.
    proof {
        lemma_utf8_step(v@, i - 1);
        if i < v.len() {
            lemma_utf8_mono(v@, i as int, v.len() as int);
        }
        let k = choose|k: int| 0 <= k <= v@.len() && #[trigger] utf8_len(v@.take(k)) == 30;
        if k < i {
            if k < i - 1 {
                lemma_utf8_mono(v@, k, i - 1);
            }
        } else if k > i {
            lemma_utf8_mono(v@, i as int, k);
        }
        assert(false);
    }
    clone_chars(v)
}

fn clone_chars(v: &Vec<char>) -> (r: Vec<char>)
    ensures
        r@ == v@,
{
    let mut out: Vec<char> = Vec::new();
    crate::text::push_chars(&mut out, v);
    assert(out@ =~= v@);
    out
}

pub open spec fn u64_or(v: JsonV, key: Seq<char>, d: nat) -> nat {
    match u64_at(v, key) {
        Some(n) => n,
        None => d,
    }
}

pub open spec fn i64_or(v: JsonV, key: Seq<char>, d: int) -> int {
    match i64_at(v, key) {
        Some(n) => n,
        None => d,
    }
}

pub open spec fn bool_or(v: JsonV, key: Seq<char>, d: bool) -> bool {
    match bool_at(v, key) {
        Some(b) => b,
        None => d,
    }
}

/// The seconds a timer has left: its duration less the time elapsed since
/// `started_at`, at least 0; without a start time, or where the start time
/// does not parse (`elapsed` is `None`), its stored `remaining_secs`.
pub open spec fn remaining_of(attrs: JsonV, elapsed: Option<nat>) -> nat {
    let duration = u64_or(attrs, "duration_secs"@, 0);
    let fallback = u64_or(attrs, "remaining_secs"@, 0);
    if str_at_or(attrs, "started_at"@, ""@).len() == 0 {
        fallback
    } else {
        match elapsed {
            None => fallback,
            Some(e) => if e >= duration {
                0
            } else {
                (duration - e) as nat
            },
        }
    }
}

/// The seconds a running timer has left; `elapsed` is the whole seconds
/// since `started_at` by the clock, or `None` where that time is not valid.
pub fn compute_remaining(attrs: &Json, elapsed: Option<u64>) -> (r: u64)
    ensures
        r as nat == remaining_of(
            attrs@,
            match elapsed {
                Some(e) => Some(e as nat),
                None => None,
            },
        ),
{
    let duration = match u64_field(attrs, "duration_secs") {
        Some(n) => n,
        None => 0,
    };
    let fallback = match u64_field(attrs, "remaining_secs") {
        Some(n) => n,
        None => 0,
    };
    let started = crate::json::str_field_or(attrs, "started_at", "");
    if started.as_str().unicode_len() == 0 {
        return fallback;
    }
    match elapsed {
        None => fallback,
        Some(e) => duration.saturating_sub(e),
    }
}

/// Seconds as two digits.
pub open spec fn pad2(n: nat) -> Seq<char> {
    if n < 10 {
        "0"@ + nat_decimal(n)
    } else {
        nat_decimal(n)
    }
}

/// The one-line summary of a glue device's value, by type. `number_text` is
/// how the caller writes the `f64` value of a number device (0 when it has
/// none); `elapsed` is as for `compute_remaining`.
pub open spec fn value_summary(d: JsonV, number_text: Seq<char>, elapsed: Option<nat>) -> Seq<char> {
    let attrs = d.at("attributes"@);
    let dt = device_type_of(d);
    if dt == "counter"@ {
        "count: "@ + int_decimal(i64_or(attrs, "count"@, 0))
    } else if dt == "number"@ {
        number_text + str_at_or(attrs, "unit"@, ""@)
    } else if dt == "select"@ {
        str_at_or(attrs, "selected"@, "—"@)
    } else if dt == "text"@ {
        cut_30(str_at_or(attrs, "value"@, ""@))
    } else if dt == "button"@ {
        str_at_or(attrs, "last_pressed"@, "never"@)
    } else if dt == "datetime"@ {
        str_at_or(attrs, "value"@, "—"@)
    } else if dt == "group"@ {
        nat_decimal(u64_or(attrs, "active_count"@, 0)) + "/"@ + nat_decimal(
            u64_or(attrs, "member_count"@, 0),
        ) + " "@ + if bool_or(attrs, "on"@, false) {
            "ON"@
        } else {
            "off"@
        }
    } else if dt == "threshold"@ {
        if bool_or(attrs, "above"@, false) {
            "ABOVE"@
        } else {
            "below"@
        }
    } else if dt == "schedule"@ {
        if bool_or(attrs, "active"@, false) {
            "ACTIVE"@
        } else {
            "inactive"@
        }
    } else if dt == "timer"@ {
        let st = str_at_or(attrs, "state"@, "idle"@);
        if st == "running"@ {
            let rem = remaining_of(attrs, elapsed);
            "running ("@ + nat_decimal(rem / 60) + ":"@ + pad2(rem % 60) + ")"@
        } else {
            st
        }
    } else if dt == "switch"@ || dt == "virtual_switch"@ {
        if bool_at(attrs, "on"@) == Some(true) {
            "ON"@
        } else {
            "off"@
        }
    } else {
        "—"@
    }
}

/// Where the summary is defined: a text device's value has a character
/// boundary at byte 30 when it is longer.
pub open spec fn summary_ok(d: JsonV) -> bool {
    device_type_of(d) == "text"@ ==> cut_ok(str_at_or(d.at("attributes"@), "value"@, ""@))
}

/// `d["attributes"]`, or `Null`.
pub fn attributes_of(d: &Json) -> (r: Json)
    ensures
        r@ == d@.at("attributes"@),
{
    match json_get(d, "attributes") {
        Some(a) => deep_clone(a),
        None => Json::Null,
    }
}

fn push_nat(out: &mut Vec<char>, n: u64)
    ensures
        final(out)@ == old(out)@ + nat_decimal(n as nat),
{
    let d = u64_decimal(n);
    push_chars(out, &d);
}

pub fn device_value_summary(d: &Json, number_text: &str, elapsed: Option<u64>) -> (r: String)
    requires
        summary_ok(d@),
    ensures
        r@ == value_summary(
            d@,
            number_text@,
            match elapsed {
                Some(e) => Some(e as nat),
                None => None,
            },
        ),
{
    let attrs = attributes_of(d);
    let dt = device_type_str(d);
    let t = dt.as_str();
    let mut out: Vec<char> = Vec::new();
    if str_eq(t, "counter") {
        push_str(&mut out, "count: ");
        let n = match i64_field(&attrs, "count") {
            Some(n) => n,
            None => 0,
        };
        let digits = i64_decimal(n);
        push_chars(&mut out, &digits);
    } else if str_eq(t, "number") {
        push_str(&mut out, number_text);
        let unit = crate::json::str_field_or(&attrs, "unit", "");
        push_str(&mut out, unit.as_str());
    } else if str_eq(t, "select") {
        let v = crate::json::str_field_or(&attrs, "selected", "—");
        push_str(&mut out, v.as_str());
    } else if str_eq(t, "text") {
        let v = crate::json::str_field_or(&attrs, "value", "");
        let cs = chars_of(v.as_str());
        let cut = cut_text_30(&cs);
        push_chars(&mut out, &cut);
    } else if str_eq(t, "button") {
        let v = crate::json::str_field_or(&attrs, "last_pressed", "never");
        push_str(&mut out, v.as_str());
    } else if str_eq(t, "datetime") {
        let v = crate::json::str_field_or(&attrs, "value", "—");
        push_str(&mut out, v.as_str());
    } else if str_eq(t, "group") {
        let active = match u64_field(&attrs, "active_count") {
            Some(n) => n,
            None => 0,
        };
        let total = match u64_field(&attrs, "member_count") {
            Some(n) => n,
            None => 0,
        };
        let on = match bool_field(&attrs, "on") {
            Some(b) => b,
            None => false,
        };
        push_nat(&mut out, active);
        push_str(&mut out, "/");
        push_nat(&mut out, total);
        push_str(&mut out, " ");
        push_str(&mut out, if on { "ON" } else { "off" });
    } else if str_eq(t, "threshold") {
        let above = match bool_field(&attrs, "above") {
            Some(b) => b,
            None => false,
        };
        push_str(&mut out, if above { "ABOVE" } else { "below" });
    } else if str_eq(t, "schedule") {
        let active = match bool_field(&attrs, "active") {
            Some(b) => b,
            None => false,
        };
        push_str(&mut out, if active { "ACTIVE" } else { "inactive" });
    } else if str_eq(t, "timer") {
        let st = crate::json::str_field_or(&attrs, "state", "idle");
        if str_eq(st.as_str(), "running") {
            let rem = compute_remaining(&attrs, elapsed);
            push_str(&mut out, "running (");
            push_nat(&mut out, rem / 60);
            push_str(&mut out, ":");
            let secs = rem % 60;
            if secs < 10 {
                push_str(&mut out, "0");
            }
            push_nat(&mut out, secs);
            push_str(&mut out, ")");
        } else {
            push_str(&mut out, st.as_str());
        }
    } else if str_eq(t, "switch") || str_eq(t, "virtual_switch") {
        let on = bool_field(&attrs, "on");
        let is_on = match on {
            Some(b) => b,
            None => false,
        };
        push_str(&mut out, if is_on { "ON" } else { "off" });
    } else {
        push_str(&mut out, "—");
    }
    let r = string_of(&out);
    assert(r@ =~= value_summary(
        d@,
        number_text@,
        match elapsed {
            Some(e) => Some(e as nat),
            None => None,
        },
    ));
    r
}

/// Whether `cut_ok` holds of a text: the check to make before summarising a
/// text device.
pub fn text_cut_ok(v: &Vec<char>) -> (r: bool)
    ensures
        r == cut_ok(v@),
{
    let mut i: usize = 0;
    let mut bytes: u64 = 0;
    assert(v@.take(0) =~= Seq::<char>::empty());
    while i < v.len() && bytes < 30
        invariant
            i <= v.len(),
            bytes == utf8_len(v@.take(i as int)),
            bytes <= 33,
            i > 0 ==> utf8_len(v@.take(i - 1)) < 30,
        decreases v.len() - i,
    {
        proof {
            lemma_utf8_step(v@, i as int);
        }
        bytes = bytes + utf8_width_of(v[i]);
        i = i + 1;
    }
    assert(v@.take(v.len() as int) =~= v@);
    if bytes <= 30 {
        proof {
            if bytes == 30 {
                assert(utf8_len(v@.take(i as int)) == 30);
            }
        }
        return true;
    }
    proof {
        lemma_utf8_step(v@, i - 1);
        if i < v.len() {
            lemma_utf8_mono(v@, i as int, v.len() as int);
        }
        assert forall|k: int| 0 <= k <= v@.len() implies #[trigger] utf8_len(v@.take(k)) != 30 by {
            if k < i - 1 {
                lemma_utf8_mono(v@, k, i - 1);
            } else if k > i {
                lemma_utf8_mono(v@, i as int, k);
            }
        }
    }
    false
}

/// Whether `summary_ok` holds of a device.
pub fn summary_defined(d: &Json) -> (r: bool)
    ensures
        r == summary_ok(d@),
{
    let dt = device_type_str(d);
    if !str_eq(dt.as_str(), "text") {
        return true;
    }
    let attrs = attributes_of(d);
    let v = crate::json::str_field_or(&attrs, "value", "");
    let cs = chars_of(v.as_str());
    text_cut_ok(&cs)
}

// ── The list ─────────────────────────────────────────────────────────────────
/// What the glue list reads of a device.
pub struct GlueDevice {
    pub device_id: String,
    pub name: String,
    pub device_type: Option<String>,
    pub available: bool,
    pub plugin_id: String,
    pub attributes: Json,
}

pub struct GlueDeviceV {
    pub device_id: Seq<char>,
    pub name: Seq<char>,
    pub device_type: Option<Seq<char>>,
    pub available: bool,
    pub plugin_id: Seq<char>,
    pub attributes: JsonV,
}

impl View for GlueDevice {
    type V = GlueDeviceV;

    open spec fn view(&self) -> GlueDeviceV {
        GlueDeviceV {
            device_id: self.device_id@,
            name: self.name@,
            device_type: opt_view(self.device_type),
            available: self.available,
            plugin_id: self.plugin_id@,
            attributes: self.attributes@,
        }
    }
}

pub open spec fn glue_view(v: Seq<GlueDevice>) -> Seq<GlueDeviceV> {
    Seq::new(v.len(), |i: int| v[i]@)
}

pub open spec fn type_or(t: Option<Seq<char>>, d: Seq<char>) -> Seq<char> {
    match t {
        Some(s) => s,
        None => d,
    }
}

/// Whether a device is a glue device that the search matches: the
/// lower-cased search text occurs in its lower-cased name, id or type.
pub open spec fn glue_matches(d: GlueDeviceV, q: Seq<char>) -> bool {
    &&& glue_plugin(d.plugin_id)
    &&& (q.len() == 0 || contains_sub(unicode_lowercase(d.name), q) || contains_sub(
        unicode_lowercase(d.device_id),
        q,
    ) || contains_sub(unicode_lowercase(type_or(d.device_type, ""@)), q))
}

/// The list's order: by type text (`unknown` without one), then by name.
pub open spec fn glue_key(d: GlueDeviceV) -> Seq<KeyPartV> {
    seq![KeyPartV::Text(type_or(d.device_type, "unknown"@)), KeyPartV::Text(d.name)]
}

pub open spec fn glue_kept(v: Seq<GlueDeviceV>, search: Seq<char>) -> Seq<GlueDeviceV> {
    v.filter(|d: GlueDeviceV| glue_matches(d, unicode_lowercase(search)))
}

pub open spec fn glue_keys(v: Seq<GlueDeviceV>) -> Seq<Seq<KeyPartV>> {
    v.map_values(|d: GlueDeviceV| glue_key(d))
}

impl GlueDevice {
    pub fn duplicate(&self) -> (r: Self)
        ensures
            r@ == self@,
    {
        GlueDevice {
            device_id: owned(self.device_id.as_str()),
            name: owned(self.name.as_str()),
            device_type: match &self.device_type {
                Some(t) => Some(owned(t.as_str())),
                None => None,
            },
            available: self.available,
            plugin_id: owned(self.plugin_id.as_str()),
            attributes: deep_clone(&self.attributes),
        }
    }
}

fn glue_match(d: &GlueDevice, q: &Vec<char>) -> (r: bool)
    ensures
        r == glue_matches(d@, q@),
{
    if !is_glue_device(d.plugin_id.as_str()) {
        return false;
    }
    if q.len() == 0 {
        return true;
    }
    let name = chars_of(lowercase(d.name.as_str()).as_str());
    if contains(&name, q) {
        return true;
    }
    let id = chars_of(lowercase(d.device_id.as_str()).as_str());
    if contains(&id, q) {
        return true;
    }
    let t = match &d.device_type {
        Some(t) => lowercase(t.as_str()),
        None => lowercase(""),
    };
    let tc = chars_of(t.as_str());
    contains(&tc, q)
}

fn glue_sort_key(d: &GlueDevice) -> (r: Vec<KeyPart>)
    ensures
        key_view(r@) == glue_key(d@),
{
    let t = match &d.device_type {
        Some(t) => owned(t.as_str()),
        None => owned("unknown"),
    };
    let mut k: Vec<KeyPart> = Vec::new();
    k.push(KeyPart::Text(t));
    k.push(KeyPart::Text(owned(d.name.as_str())));
    assert(key_view(k@) =~= glue_key(d@));
    k
}

/// The glue devices that the search matches, by type and then name; devices
/// with the same type and name keep their order.
pub fn glue_list(devices: &Vec<GlueDevice>, search: &str) -> (r: Vec<GlueDevice>)
    ensures
        ({
            let kept = glue_kept(glue_view(devices@), search@);
            exists|perm: Seq<int>| stable_sorted(kept, glue_keys(kept), false, glue_view(r@), perm)
        }),
{
    let q = chars_of(lowercase(search).as_str());
    let ghost dv = glue_view(devices@);
    let ghost pred = |d: GlueDeviceV| glue_matches(d, q@);
    let mut kept: Vec<GlueDevice> = Vec::new();
    let mut keys: Vec<Vec<KeyPart>> = Vec::new();
    let mut i: usize = 0;
    while i < devices.len()
        invariant
            i <= devices.len(),
            dv == glue_view(devices@),
            pred == (|d: GlueDeviceV| glue_matches(d, q@)),
            kept.len() == keys.len(),
            glue_view(kept@) == dv.take(i as int).filter(pred),
            keys_view(keys@) == glue_keys(dv.take(i as int).filter(pred)),
        decreases devices.len() - i,
    {
        proof {
            assert(dv.take(i + 1).drop_last() =~= dv.take(i as int));
            reveal_with_fuel(Seq::filter, 1);
        }
        if glue_match(&devices[i], &q) {
            let ghost b_kept = kept@;
            let ghost b_keys = keys@;
            kept.push(devices[i].duplicate());
            keys.push(glue_sort_key(&devices[i]));
            assert(glue_view(kept@) =~= glue_view(b_kept).push(dv[i as int]));
            assert(keys_view(keys@) =~= keys_view(b_keys).push(glue_key(dv[i as int])));
            assert(glue_keys(dv.take(i + 1).filter(pred)) =~= glue_keys(dv.take(i as int).filter(pred)).push(glue_key(dv[i as int])));
        }
        i = i + 1;
    }
    assert(dv.take(devices.len() as int) =~= dv);
    let ghost kept_items = kept@;
    let ghost kept_keys = keys_view(keys@);
    let sorted = sort_by_keys(kept, keys, false);
    proof {
        let perm = choose|perm: Seq<int>| stable_sorted(kept_items, kept_keys, false, sorted@, perm);
        lemma_sorted_map(kept_items, kept_keys, false, sorted@, perm, |d: GlueDevice| d@);
        assert(kept_items.map_values(|d: GlueDevice| d@) =~= glue_view(kept_items));
        assert(sorted@.map_values(|d: GlueDevice| d@) =~= glue_view(sorted@));
        assert(glue_kept(dv, search@) == dv.filter(pred));
        assert(stable_sorted(glue_kept(dv, search@), glue_keys(glue_kept(dv, search@)), false, glue_view(sorted@), perm));
    }
    sorted
}

/// How many devices are glue devices.
pub fn glue_count(devices: &Vec<GlueDevice>) -> (r: usize)
    ensures
        r == glue_view(devices@).filter(|d: GlueDeviceV| glue_plugin(d.plugin_id)).len(),
{
    let ghost dv = glue_view(devices@);
    let ghost pred = |d: GlueDeviceV| glue_plugin(d.plugin_id);
    let mut n: usize = 0;
    let mut i: usize = 0;
    while i < devices.len()
        invariant
            i <= devices.len(),
            dv == glue_view(devices@),
            pred == (|d: GlueDeviceV| glue_plugin(d.plugin_id)),
            n == dv.take(i as int).filter(pred).len(),
            n <= i,
        decreases devices.len() - i,
    {
        proof {
            assert(dv.take(i + 1).drop_last() =~= dv.take(i as int));
            reveal_with_fuel(Seq::filter, 1);
        }
        if is_glue_device(devices[i].plugin_id.as_str()) {
            n = n + 1;
        }
        i = i + 1;
    }
    assert(dv.take(devices.len() as int) =~= dv);
    n
}

// ── Requests ─────────────────────────────────────────────────────────────────
/// Whether the create button is enabled: not busy, and id and name are not
/// blank.
pub fn can_create(creating: bool, id: &str, name: &str) -> (r: bool)
    ensures
        r == (!creating && trimmed(id@).len() > 0 && trimmed(name@).len() > 0),
{
    if creating {
        return false;
    }
    let i = trim(id);
    let n = trim(name);
    i.as_str().unicode_len() > 0 && n.as_str().unicode_len() > 0
}

/// The body that creates a glue device: its type, trimmed id and name, and
/// an empty configuration.
pub fn create_body(kind: &str, id: &str, name: &str) -> (r: Json)
    ensures
        r@ == JsonV::Obj(
            seq![
                ("type"@, JsonV::Str(kind@)),
                ("id"@, JsonV::Str(trimmed(id@))),
                ("name"@, JsonV::Str(trimmed(name@))),
                ("config"@, JsonV::Obj(Seq::empty())),
            ],
        ),
{
    let mut entries: Vec<(String, Json)> = Vec::new();
    entries.push((owned("type"), json_string(kind)));
    let i = trim(id);
    entries.push((owned("id"), json_string(i.as_str())));
    let n = trim(name);
    entries.push((owned("name"), json_string(n.as_str())));
    let empty: Vec<(String, Json)> = Vec::new();
    let config = make_object(empty);
    assert(config@ == JsonV::Obj(Seq::empty())) by {
        assert(entries_view(empty@) =~= Seq::<(Seq<char>, JsonV)>::empty());
    }
    entries.push((owned("config"), config));
    assert(entries_view(entries@) =~= seq![
        ("type"@, JsonV::Str(kind@)),
        ("id"@, JsonV::Str(trimmed(id@))),
        ("name"@, JsonV::Str(trimmed(name@))),
        ("config"@, JsonV::Obj(Seq::empty())),
    ]);
    make_object(entries)
}

/// The body that renames a device, or `None` where the new name is blank or
/// unchanged.
pub fn rename_body(new_name: &str, current: &str) -> (r: Option<Json>)
    ensures
        match r {
            Some(b) => trimmed(new_name@).len() > 0 && new_name@ != current@ && b@ == JsonV::Obj(
                seq![("name"@, JsonV::Str(new_name@))],
            ),
            None => trimmed(new_name@).len() == 0 || new_name@ == current@,
        },
{
    let t = trim(new_name);
    if t.as_str().unicode_len() == 0 || str_eq(new_name, current) {
        return None;
    }
    let mut entries: Vec<(String, Json)> = Vec::new();
    entries.push((owned("name"), json_string(new_name)));
    assert(entries_view(entries@) =~= seq![("name"@, JsonV::Str(new_name@))]);
    Some(make_object(entries))
}

/// A command body: `{"command": cmd}`.
pub fn command_body(cmd: &str) -> (r: Json)
    ensures
        r@ == JsonV::Obj(seq![("command"@, JsonV::Str(cmd@))]),
{
    let mut entries: Vec<(String, Json)> = Vec::new();
    entries.push((owned("command"), json_string(cmd)));
    assert(entries_view(entries@) =~= seq![("command"@, JsonV::Str(cmd@))]);
    make_object(entries)
}

/// A command with one string argument: `{"command": cmd, key: value}`.
pub fn command_with_text(cmd: &str, key: &str, value: &str) -> (r: Json)
    ensures
        r@ == JsonV::Obj(seq![("command"@, JsonV::Str(cmd@)), (key@, JsonV::Str(value@))]),
{
    let mut entries: Vec<(String, Json)> = Vec::new();
    entries.push((owned("command"), json_string(cmd)));
    entries.push((owned(key), json_string(value)));
    assert(entries_view(entries@) =~= seq![("command"@, JsonV::Str(cmd@)), (key@, JsonV::Str(value@))]);
    make_object(entries)
}

/// The timer's start command, for five minutes.
pub fn timer_start_body() -> (r: Json)
    ensures
        r@ == JsonV::Obj(
            seq![("command"@, JsonV::Str("start"@)), ("duration_secs"@, crate::criteria::int_json(300))],
        ),
{
    let mut entries: Vec<(String, Json)> = Vec::new();
    entries.push((owned("command"), json_string("start")));
    entries.push((owned("duration_secs"), crate::criteria::int_value(300)));
    assert(entries_view(entries@) =~= seq![
        ("command"@, JsonV::Str("start"@)),
        ("duration_secs"@, crate::criteria::int_json(300)),
    ]);
    make_object(entries)
}

/// A counter's step: `step` as an integer, or 1.
pub fn counter_step(attrs: &Json) -> (r: i64)
    ensures
        r as int == i64_or(attrs@, "step"@, 1),
{
    match i64_field(attrs, "step") {
        Some(n) => n,
        None => 1,
    }
}

/// A select device's options: the strings of its `options` list.
pub open spec fn select_options_of(attrs: JsonV) -> Seq<Seq<char>> {
    match attrs.at("options"@).as_array() {
        Some(items) => string_items(items),
        None => Seq::empty(),
    }
}

pub fn select_options(attrs: &Json) -> (r: Vec<String>)
    ensures
        strings_view(r@) == select_options_of(attrs@),
{
    let mut out: Vec<String> = Vec::new();
    match json_get(attrs, "options") {
        Some(Json::Array(items)) => {
            proof {
                crate::json::lemma_jv_items(*items, items.len() as nat);
            }
            let ghost iv = crate::json::jv_items(*items, items.len() as nat);
            let mut i: usize = 0;
            while i < items.len()
                invariant
                    i <= items.len(),
                    iv == crate::json::jv_items(*items, items.len() as nat),
                    iv.len() == items.len(),
                    forall|k: int| 0 <= k < items.len() ==> #[trigger] iv[k] == crate::json::jv(items[k]),
                    strings_view(out@) == string_items(iv.take(i as int)),
                decreases items.len() - i,
            {
                proof {
                    assert(iv.take(i + 1).drop_last() =~= iv.take(i as int));
                    assert(iv.take(i + 1).last() == iv[i as int]);
                }
                match &items[i] {
                    Json::Str(s) => {
                        let ghost before = out@;
                        out.push(owned(s.as_str()));
                        assert(strings_view(out@) =~= strings_view(before).push(s@));
                    },
                    _ => {},
                }
                i = i + 1;
            }
            assert(iv.take(items.len() as int) =~= iv);
        },
        _ => {},
    }
    out
}


/// A threshold device reads `ABOVE` when its `above` attribute is `true`,
/// and `below` when it is `false` or missing, whatever the other inputs.
pub proof fn law_threshold_summary(d: JsonV, number_text: Seq<char>, elapsed: Option<nat>)
    requires
        str_at(d, "device_type"@) == Some("threshold"@),
    ensures
        d.at("attributes"@).at("above"@).as_bool() == Some(true) ==> value_summary(d, number_text, elapsed)
            == "ABOVE"@,
        d.at("attributes"@).at("above"@).as_bool() != Some(true) ==> value_summary(d, number_text, elapsed)
            == "below"@,
{
    reveal_strlit("threshold");
    reveal_strlit("counter");
    reveal_strlit("number");
    reveal_strlit("select");
    reveal_strlit("text");
    reveal_strlit("button");
    reveal_strlit("datetime");
    reveal_strlit("group");
    assert("threshold"@.len() == 9);
}


proof fn lemma_type_names_differ()
    ensures
        "counter"@ != "group"@ && "number"@ != "group"@ && "select"@ != "group"@ && "text"@ != "group"@
            && "button"@ != "group"@ && "datetime"@ != "group"@,
        "counter"@ != "schedule"@ && "number"@ != "schedule"@ && "select"@ != "schedule"@ && "text"@ != "schedule"@
            && "button"@ != "schedule"@ && "datetime"@ != "schedule"@ && "group"@ != "schedule"@ && "threshold"@
            != "schedule"@,
        "counter"@ != "switch"@ && "number"@ != "switch"@ && "select"@ != "switch"@ && "text"@ != "switch"@
            && "button"@ != "switch"@ && "datetime"@ != "switch"@ && "group"@ != "switch"@ && "threshold"@
            != "switch"@ && "schedule"@ != "switch"@ && "timer"@ != "switch"@,
        "counter"@ != "virtual_switch"@ && "number"@ != "virtual_switch"@ && "select"@ != "virtual_switch"@ && "text"@
            != "virtual_switch"@ && "button"@ != "virtual_switch"@ && "datetime"@ != "virtual_switch"@ && "group"@
            != "virtual_switch"@ && "threshold"@ != "virtual_switch"@ && "schedule"@ != "virtual_switch"@ && "timer"@
            != "virtual_switch"@,
{
    reveal_strlit("counter");
    reveal_strlit("number");
    reveal_strlit("select");
    reveal_strlit("text");
    reveal_strlit("button");
    reveal_strlit("datetime");
    reveal_strlit("group");
    reveal_strlit("threshold");
    reveal_strlit("schedule");
    reveal_strlit("timer");
    reveal_strlit("switch");
    reveal_strlit("virtual_switch");
    assert("counter"@.len() == 7 && "number"@.len() == 6 && "select"@.len() == 6 && "text"@.len() == 4);
    assert("button"@.len() == 6 && "datetime"@.len() == 8 && "group"@.len() == 5 && "threshold"@.len() == 9);
    assert("schedule"@.len() == 8 && "timer"@.len() == 5 && "switch"@.len() == 6 && "virtual_switch"@.len() == 14);
    assert("datetime"@[0] != "schedule"@[0]);
    crate::text::lemma_sig_differs("number"@, "switch"@);
    crate::text::lemma_sig_differs("select"@, "switch"@);
    crate::text::lemma_sig_differs("button"@, "switch"@);
}

/// A group reads its active and member counts and then `ON` when its `on`
/// attribute is `true`, `off` otherwise; a schedule reads `ACTIVE` when its
/// `active` attribute is `true`, `inactive` otherwise; a switch (virtual or
/// not) reads `ON` when its `on` attribute is `true`, `off` otherwise.
pub proof fn law_on_off_summaries(d: JsonV, number_text: Seq<char>, elapsed: Option<nat>)
    ensures
        str_at(d, "device_type"@) == Some("group"@) ==> {
            let s = value_summary(d, number_text, elapsed);
            let on = d.at("attributes"@).at("on"@).as_bool() == Some(true);
            &&& on ==> s.len() >= 3 && s.subrange(s.len() - 3, s.len() as int) == " ON"@
            &&& !on ==> s.len() >= 4 && s.subrange(s.len() - 4, s.len() as int) == " off"@
        },
        str_at(d, "device_type"@) == Some("schedule"@) ==> value_summary(d, number_text, elapsed) == if d.at(
            "attributes"@,
        ).at("active"@).as_bool() == Some(true) {
            "ACTIVE"@
        } else {
            "inactive"@
        },
        str_at(d, "device_type"@) == Some("switch"@) || str_at(d, "device_type"@) == Some("virtual_switch"@)
            ==> value_summary(d, number_text, elapsed) == if d.at("attributes"@).at("on"@).as_bool() == Some(true) {
            "ON"@
        } else {
            "off"@
        },
{
    lemma_type_names_differ();
    reveal_strlit(" ON");
    reveal_strlit(" off");
    reveal_strlit(" ");
    reveal_strlit("ON");
    reveal_strlit("off");
    if str_at(d, "device_type"@) == Some("group"@) {
        let attrs = d.at("attributes"@);
        let p = nat_decimal(u64_or(attrs, "active_count"@, 0)) + "/"@ + nat_decimal(u64_or(attrs, "member_count"@, 0));
        let s = value_summary(d, number_text, elapsed);
        if bool_or(attrs, "on"@, false) {
            assert(s == p + " "@ + "ON"@);
            assert(p + " "@ + "ON"@ =~= p + " ON"@);
            assert((p + " ON"@).subrange(p.len() as int, p.len() + 3int) =~= " ON"@);
        } else {
            assert(s == p + " "@ + "off"@);
            assert(p + " "@ + "off"@ =~= p + " off"@);
            assert((p + " off"@).subrange(p.len() as int, p.len() + 4int) =~= " off"@);
        }
    }
}

} // verus!
