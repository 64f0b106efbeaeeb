//! The rule editor's own decisions: the metadata it edits (name, tags, run
//! mode, cooldown, …), how its inputs are read, how lists of conditions and
//! actions are reordered, and what the save bar says.
use vstd::prelude::*;
use crate::text::{
    str_eq, owned, trim, trimmed, chars_of, strings_view, list_has, parse_i64, parse_i64_chars,
    parse_u64, parse_u64_chars, string_of, push_str, push_chars, u64_decimal, nat_decimal,
};
use crate::json::{
    Json, JsonV, str_at_or, bool_at, json_get, compact, compact_json, u64_field, bool_field,
    str_field_or,
};
use crate::actions::opt_jv;
use crate::mode_list::Moment;
use crate::text::trim_chars;
use crate::text::concat2;


verus! {

// ── Run modes ────────────────────────────────────────────────────────────────
/// How a rule runs when it fires while a run is in progress.
#[derive(PartialEq, Eq, Structural, Clone, Copy, Debug)]
pub enum RunMode {
    Parallel,
    Single,
    Restart,
    Queued { max_queue: usize },
}

/// The run mode a picker value selects; a new queue holds ten.
pub open spec fn run_mode_of(t: Seq<char>) -> RunMode {
    if t == "single"@ {
        RunMode::Single
    } else if t == "restart"@ {
        RunMode::Restart
    } else if t == "queued"@ {
        RunMode::Queued { max_queue: 10 }
    } else {
        RunMode::Parallel
    }
}

pub open spec fn run_mode_key_of(m: RunMode) -> Seq<char> {
    match m {
        RunMode::Parallel => "parallel"@,
        RunMode::Single => "single"@,
        RunMode::Restart => "restart"@,
        RunMode::Queued { .. } => "queued"@,
    }
}

pub fn run_mode_from_str(t: &str) -> (r: RunMode)
    ensures
        r == run_mode_of(t@),
{
    if str_eq(t, "single") {
        RunMode::Single
    } else if str_eq(t, "restart") {
        RunMode::Restart
    } else if str_eq(t, "queued") {
        RunMode::Queued { max_queue: 10 }
    } else {
        RunMode::Parallel
    }
}

pub fn run_mode_key(m: RunMode) -> (r: &'static str)
    ensures
        r@ == run_mode_key_of(m),
{
    match m {
        RunMode::Parallel => "parallel",
        RunMode::Single => "single",
        RunMode::Restart => "restart",
        RunMode::Queued { .. } => "queued",
    }
}

/// The help text under the run mode picker.
pub fn run_mode_help(m: RunMode) -> (r: &'static str)
    ensures
        r@ == match m {
            RunMode::Parallel => "Each fire spawns its own task; previous runs continue uninterrupted."@,
            RunMode::Single => "If a previous run is still in progress, this fire is skipped."@,
            RunMode::Restart => "If a previous run is still in progress, it's cancelled and a new run starts."@,
            RunMode::Queued { .. } => "Fires queue up; one runs at a time. Drops if the queue is full."@,
        },
{
    match m {
        RunMode::Parallel => "Each fire spawns its own task; previous runs continue uninterrupted.",
        RunMode::Single => "If a previous run is still in progress, this fire is skipped.",
        RunMode::Restart => "If a previous run is still in progress, it's cancelled and a new run starts.",
        RunMode::Queued { .. } => "Fires queue up; one runs at a time. Drops if the queue is full.",
    }
}

/// Picking a run mode by its own key gives it back; a queue comes back
/// with its default size.
pub proof fn law_run_mode_key_roundtrip(m: RunMode)
    ensures
        run_mode_of(run_mode_key_of(m)) == match m {
            RunMode::Queued { .. } => RunMode::Queued { max_queue: 10 },
            _ => m,
        },
{
    reveal_strlit("parallel");
    reveal_strlit("single");
    reveal_strlit("restart");
    reveal_strlit("queued");
    assert("parallel"@.len() != "single"@.len());
    assert("parallel"@.len() != "restart"@.len());
    assert("parallel"@[0] != "queued"@[0]);
    assert("restart"@.len() != "single"@.len());
    assert("queued"@[0] != "single"@[0]);
    assert("queued"@.len() != "restart"@.len());
}

/// The queue size box: a positive size, or unchanged where the text is not
/// a size; only a queued rule has one.
pub open spec fn queue_after(m: RunMode, text: Seq<char>) -> RunMode {
    match m {
        RunMode::Queued { .. } => match parse_u64(text) {
            Some(n) => if n <= usize::MAX {
                RunMode::Queued { max_queue: if n == 0 { 1 } else { n as usize } }
            } else {
                m
            },
            None => m,
        },
        _ => m,
    }
}

pub fn set_queue_size(m: RunMode, text: &str) -> (r: RunMode)
    ensures
        r == queue_after(m, text@),
{
    match m {
        RunMode::Queued { .. } => {
            let cs = chars_of(text);
            match parse_u64_chars(&cs) {
                Some(n) => if n as u128 <= usize::MAX as u128 {
                    RunMode::Queued { max_queue: if n == 0 { 1 } else { n as usize } }
                } else {
                    m
                },
                None => m,
            }
        },
        _ => m,
    }
}

// ── Metadata ─────────────────────────────────────────────────────────────────
/// The parts of a rule that the editor's header and advanced section edit.
pub struct RuleMeta {
    pub name: String,
    pub enabled: bool,
    pub priority: i32,
    pub tags: Vec<String>,
    pub run_mode: RunMode,
    pub cooldown_secs: Option<u64>,
    pub trigger_label: Option<String>,
    pub required_expression: Option<String>,
    pub cancel_on_false: bool,
    pub trigger_condition: Option<String>,
    pub log_events: bool,
    pub log_triggers: bool,
    pub log_actions: bool,
}

/// A new rule: unnamed, enabled, priority 0, no tags, parallel runs, no
/// cooldown, nothing logged.
pub fn default_rule_meta() -> (r: RuleMeta)
    ensures
        r.name@ == Seq::<char>::empty(),
        r.enabled,
        r.priority == 0,
        r.tags@.len() == 0,
        r.run_mode == RunMode::Parallel,
        r.cooldown_secs is None,
        r.trigger_label is None,
        r.required_expression is None,
        !r.cancel_on_false,
        r.trigger_condition is None,
        !r.log_events && !r.log_triggers && !r.log_actions,
{
    let e: Vec<char> = Vec::new();
    let name = string_of(&e);
    assert(name@ =~= Seq::<char>::empty());
    RuleMeta {
        name,
        enabled: true,
        priority: 0,
        tags: Vec::new(),
        run_mode: RunMode::Parallel,
        cooldown_secs: None,
        trigger_label: None,
        required_expression: None,
        cancel_on_false: false,
        trigger_condition: None,
        log_events: false,
        log_triggers: false,
        log_actions: false,
    }
}

/// What committing the tag box does: the trimmed text joins the tags once;
/// blank text changes nothing. Returns whether the box is cleared.
pub open spec fn tags_after_commit(tags: Seq<Seq<char>>, raw: Seq<char>) -> Seq<Seq<char>> {
    let t = trimmed(raw);
    if t.len() == 0 || tags.contains(t) {
        tags
    } else {
        tags.push(t)
    }
}

pub fn commit_tag(tags: &mut Vec<String>, raw: &str) -> (cleared: bool)
    ensures
        strings_view(final(tags)@) == tags_after_commit(strings_view(old(tags)@), raw@),
        cleared == (trimmed(raw@).len() > 0),
{
    let t = trim(raw);
    if t.as_str().unicode_len() == 0 {
        return false;
    }
    if !list_has(tags, t.as_str()) {
        let ghost before = tags@;
        tags.push(t);
        assert(strings_view(tags@) =~= strings_view(before).push(trimmed(raw@)));
    }
    true
}

/// Committing tags never repeats one.
pub proof fn law_commit_keeps_tags_distinct(tags: Seq<Seq<char>>, raw: Seq<char>)
    requires
        forall|a: int, b: int| 0 <= a < b < tags.len() ==> tags[a] != tags[b],
    ensures
        ({
            let after = tags_after_commit(tags, raw);
            forall|a: int, b: int| 0 <= a < b < after.len() ==> after[a] != after[b]
        }),
{
    let t = trimmed(raw);
    let after = tags_after_commit(tags, raw);
    if !(t.len() == 0 || tags.contains(t)) {
        assert forall|a: int, b: int| 0 <= a < b < after.len() implies after[a] != after[b] by {
            if b == tags.len() {
                assert(after[a] == tags[a]);
                assert(after[b] == t);
                if tags[a] == t {
                    assert(tags.contains(t));
                }
            } else {
                assert(after[a] == tags[a] && after[b] == tags[b]);
            }
        }
    }
}

/// The × on a tag removes it, where the index is in range.
pub fn remove_tag(tags: &mut Vec<String>, i: usize)
    ensures
        strings_view(final(tags)@) == if i < old(tags)@.len() {
            strings_view(old(tags)@).remove(i as int)
        } else {
            strings_view(old(tags)@)
        },
{
    if i < tags.len() {
        let ghost before = tags@;
        tags.remove(i);
        assert(strings_view(tags@) =~= strings_view(before).remove(i as int));
    }
}

/// The priority box: an `i32`, or unchanged.
pub open spec fn priority_after(old_priority: int, text: Seq<char>) -> int {
    match parse_i64(text) {
        Some(n) => if i32::MIN <= n && n <= i32::MAX {
            n
        } else {
            old_priority
        },
        None => old_priority,
    }
}

pub fn set_priority(old_priority: i32, text: &str) -> (r: i32)
    ensures
        r as int == priority_after(old_priority as int, text@),
{
    let cs = chars_of(text);
    match parse_i64_chars(&cs) {
        Some(n) => if -2147483648 <= n && n <= 2147483647 {
            n as i32
        } else {
            old_priority
        },
        None => old_priority,
    }
}

/// A whole-number box that may be blank: the trimmed text as a number, or
/// nothing (`raw.trim().parse::<u64>().ok()`).
pub fn parse_opt_u64(raw: &str) -> (r: Option<u64>)
    ensures
        match r {
            Some(n) => parse_u64(trimmed(raw@)) == Some(n as nat),
            None => parse_u64(trimmed(raw@)) is None,
        },
{
    let t = trim(raw);
    let cs = chars_of(t.as_str());
    parse_u64_chars(&cs)
}

/// An optional number box: blank is nothing, else the text as a number
/// (`if v.is_empty() { None } else { v.parse::<u64>().ok() }`).
pub fn parse_blank_u64(raw: &str) -> (r: Option<u64>)
    ensures
        match r {
            Some(n) => raw@.len() > 0 && parse_u64(raw@) == Some(n as nat),
            None => raw@.len() == 0 || parse_u64(raw@) is None,
        },
{
    let cs = chars_of(raw);
    if cs.len() == 0 {
        return None;
    }
    parse_u64_chars(&cs)
}

/// An optional text field: blank is nothing, else the text as typed.
pub fn optional_text(raw: &str) -> (r: Option<String>)
    ensures
        crate::json::opt_view(r) == if trimmed(raw@).len() == 0 {
            None
        } else {
            Some(raw@)
        },
{
    let t = trim(raw);
    if t.as_str().unicode_len() == 0 {
        None
    } else {
        Some(owned(raw))
    }
}

/// Saving needs a name.
pub fn validate_for_save(name: &str) -> (r: Result<(), String>)
    ensures
        match r {
            Ok(()) => trimmed(name@).len() > 0,
            Err(e) => trimmed(name@).len() == 0 && e@ == "Rule name is required."@,
        },
{
    let t = trim(name);
    if t.as_str().unicode_len() == 0 {
        Err(owned("Rule name is required."))
    } else {
        Ok(())
    }
}

// ── Reordering lists ─────────────────────────────────────────────────────────
/// `s` with the items at `a` and `b` exchanged.
pub open spec fn swapped<T>(s: Seq<T>, a: int, b: int) -> Seq<T> {
    s.update(a, s[b]).update(b, s[a])
}

/// The ▲ button: the item changes places with the one above it.
pub fn move_up<T>(v: &mut Vec<T>, i: usize)
    ensures
        final(v)@ == if 0 < i < old(v)@.len() {
            swapped(old(v)@, i - 1, i as int)
        } else {
            old(v)@
        },
{
    if 0 < i && i < v.len() {
        let ghost before = v@;
        let x = v.remove(i);
        v.insert(i - 1, x);
        assert(v@ =~= swapped(before, i - 1, i as int));
    }
}

/// The ▼ button: the item changes places with the one below it.
pub fn move_down<T>(v: &mut Vec<T>, i: usize)
    ensures
        final(v)@ == if i + 1 < old(v)@.len() {
            swapped(old(v)@, i as int, i + 1)
        } else {
            old(v)@
        },
{
    if v.len() > 0 && i < v.len() - 1 {
        let ghost before = v@;
        let x = v.remove(i);
        v.insert(i + 1, x);
        assert(v@ =~= swapped(before, i as int, i + 1));
    }
}

/// Moving an item up and then down again restores the list.
pub proof fn law_move_up_down<T>(s: Seq<T>, i: int)
    requires
        0 < i < s.len(),
    ensures
        swapped(swapped(s, i - 1, i), i - 1, i) == s,
{
    assert(swapped(swapped(s, i - 1, i), i - 1, i) =~= s);
}

/// The × button of a list item.
pub fn remove_at<T>(v: &mut Vec<T>, i: usize)
    requires
        i < old(v)@.len(),
    ensures
        final(v)@ == old(v)@.remove(i as int),
{
    v.remove(i);
}

// ── Values typed as text ─────────────────────────────────────────────────────
/// A trigger's match value: blank is any value; otherwise the text's JSON
/// parse (`parsed`), or the text itself as a string.
pub open spec fn match_value_of(raw: Seq<char>, parsed: Option<JsonV>) -> Option<JsonV> {
    if trimmed(raw).len() == 0 {
        None
    } else {
        match parsed {
            Some(v) => Some(v),
            None => Some(JsonV::Str(raw)),
        }
    }
}

pub fn match_value(raw: &str, parsed: Option<Json>) -> (r: Option<Json>)
    ensures
        opt_jv(r) == match_value_of(raw@, opt_jv(parsed)),
{
    let t = trim(raw);
    if t.as_str().unicode_len() == 0 {
        return None;
    }
    match parsed {
        Some(v) => Some(v),
        None => Some(Json::Str(owned(raw))),
    }
}

/// A condition's compared value: blank is `true`; otherwise as for
/// `match_value`.
pub open spec fn condition_value_of(raw: Seq<char>, parsed: Option<JsonV>) -> JsonV {
    if trimmed(raw).len() == 0 {
        JsonV::Bool(true)
    } else {
        match parsed {
            Some(v) => v,
            None => JsonV::Str(raw),
        }
    }
}

pub fn condition_value(raw: &str, parsed: Option<Json>) -> (r: Json)
    ensures
        r@ == condition_value_of(raw@, opt_jv(parsed)),
{
    let t = trim(raw);
    if t.as_str().unicode_len() == 0 {
        return Json::Bool(true);
    }
    match parsed {
        Some(v) => v,
        None => Json::Str(owned(raw)),
    }
}

/// `online`, `offline`, or any.
pub fn availability_target(raw: &str) -> (r: Option<bool>)
    ensures
        r == if raw@ == "online"@ {
            Some(true)
        } else if raw@ == "offline"@ {
            Some(false)
        } else {
            None
        },
{
    if str_eq(raw, "online") {
        Some(true)
    } else if str_eq(raw, "offline") {
        Some(false)
    } else {
        None
    }
}

/// `on`, `off`, or any.
pub fn mode_target(raw: &str) -> (r: Option<bool>)
    ensures
        r == if raw@ == "on"@ {
            Some(true)
        } else if raw@ == "off"@ {
            Some(false)
        } else {
            None
        },
{
    if str_eq(raw, "on") {
        Some(true)
    } else if str_eq(raw, "off") {
        Some(false)
    } else {
        None
    }
}

/// The pieces of a text between commas (`str::split(',')`).
pub open spec fn comma_pieces(s: Seq<char>) -> Seq<Seq<char>>
    decreases s.len(),
{
    if s.len() == 0 {
        seq![Seq::empty()]
    } else {
        let p = comma_pieces(s.drop_last());
        if s.last() == ',' {
            p.push(Seq::empty())
        } else {
            p.update(p.len() - 1, p.last().push(s.last()))
        }
    }
}

proof fn lemma_comma_pieces_nonempty(s: Seq<char>)
    ensures
        comma_pieces(s).len() >= 1,
    decreases s.len(),
{
    if s.len() > 0 {
        lemma_comma_pieces_nonempty(s.drop_last());
    }
}

/// A comma-separated list of ids: each piece trimmed, blank pieces dropped.
pub open spec fn id_list_of(s: Seq<char>) -> Seq<Seq<char>> {
    comma_pieces(s).map_values(|p: Seq<char>| trimmed(p)).filter(|p: Seq<char>| p.len() > 0)
}

pub fn parse_id_list(raw: &str) -> (r: Vec<String>)
    ensures
        strings_view(r@) == id_list_of(raw@),
{
    let cs = chars_of(raw);
    let mut pieces: Vec<Vec<char>> = Vec::new();
    pieces.push(Vec::new());
    let ghost pv = |v: Seq<Vec<char>>| v.map_values(|x: Vec<char>| x@);
    assert(cs@.take(0) =~= Seq::<char>::empty());
    assert(pieces@.map_values(|x: Vec<char>| x@) =~= comma_pieces(cs@.take(0)));
    let mut i: usize = 0;
    while i < cs.len()
        invariant
            i <= cs.len(),
            pieces@.len() >= 1,
            pieces@.map_values(|x: Vec<char>| x@) == comma_pieces(cs@.take(i as int)),
        decreases cs.len() - i,
    {
        let c = cs[i];
        let ghost before = pieces@.map_values(|x: Vec<char>| x@);
        proof {
            assert(cs@.take(i + 1).drop_last() =~= cs@.take(i as int));
            assert(cs@.take(i + 1).last() == c);
        }
        if c == ',' {
            pieces.push(Vec::new());
            assert(pieces@.map_values(|x: Vec<char>| x@) =~= before.push(Seq::empty()));
        } else {
            let last = pieces.len() - 1;
            let mut p = pieces.remove(last);
            p.push(c);
            pieces.push(p);
            assert(pieces@.map_values(|x: Vec<char>| x@) =~= before.update(before.len() - 1, before.last().push(c)));
        }
        i = i + 1;
    }
    assert(cs@.take(cs.len() as int) =~= cs@);
    let ghost all = pieces@.map_values(|x: Vec<char>| x@);
    let ghost tr = all.map_values(|p: Seq<char>| trimmed(p));
    let ghost pred = |p: Seq<char>| p.len() > 0;
    let mut out: Vec<String> = Vec::new();
    let mut k: usize = 0;
    while k < pieces.len()
        invariant
            k <= pieces.len(),
            all == pieces@.map_values(|x: Vec<char>| x@),
            tr == all.map_values(|p: Seq<char>| trimmed(p)),
            pred == (|p: Seq<char>| p.len() > 0),
            strings_view(out@) == tr.take(k as int).filter(pred),
        decreases pieces.len() - k,
    {
        proof {
            assert(tr.take(k + 1).drop_last() =~= tr.take(k as int));
            reveal_with_fuel(Seq::filter, 1);
        }
        let t = trim_chars(&pieces[k]);
        if t.len() > 0 {
            let ghost before = out@;
            out.push(string_of(&t));
            assert(strings_view(out@) =~= strings_view(before).push(tr[k as int]));
        }
        k = k + 1;
    }
    assert(tr.take(pieces.len() as int) =~= tr);
    out
}

// ── Days of the week ─────────────────────────────────────────────────────────
/// A day chip: ticking adds the day once, unticking removes it. Days are
/// numbered from Monday, 0.
pub fn toggle_day(days: &mut Vec<u8>, day: u8, on: bool)
    ensures
        final(days)@ == if on {
            if old(days)@.contains(day) {
                old(days)@
            } else {
                old(days)@.push(day)
            }
        } else {
            old(days)@.filter(|d: u8| d != day)
        },
{
    let ghost dv = days@;
    let mut found = false;
    let mut i: usize = 0;
    while i < days.len()
        invariant
            i <= days.len(),
            dv == days@,
            found == dv.take(i as int).contains(day),
        decreases days.len() - i,
    {
        proof {
            assert(dv.take(i + 1) =~= dv.take(i as int).push(dv[i as int]));
            if dv.take(i as int).contains(day) {
                let w = choose|w: int| 0 <= w < i && #[trigger] dv.take(i as int)[w] == day;
                assert(dv.take(i + 1)[w] == day);
            }
            if dv[i as int] == day {
                assert(dv.take(i + 1)[i as int] == day);
            }
            if dv.take(i + 1).contains(day) && dv[i as int] != day {
                let w = choose|w: int| 0 <= w < i + 1 && #[trigger] dv.take(i + 1)[w] == day;
                assert(dv.take(i as int)[w] == day);
            }
        }
        if days[i] == day {
            found = true;
        }
        i = i + 1;
    }
    assert(dv.take(days.len() as int) =~= dv);
    if on {
        if !found {
            days.push(day);
        }
    } else {
        let ghost pred = |d: u8| d != day;
        let mut kept: Vec<u8> = Vec::new();
        let mut j: usize = 0;
        while j < days.len()
            invariant
                j <= days.len(),
                dv == days@,
                pred == (|d: u8| d != day),
                kept@ == dv.take(j as int).filter(pred),
            decreases days.len() - j,
        {
            proof {
                assert(dv.take(j + 1).drop_last() =~= dv.take(j as int));
                reveal_with_fuel(Seq::filter, 1);
            }
            if days[j] != day {
                kept.push(days[j]);
            }
            j = j + 1;
        }
        assert(dv.take(days.len() as int) =~= dv);
        *days = kept;
    }
}

// ── Labels ───────────────────────────────────────────────────────────────────
/// The words for true and false of a boolean attribute.
pub open spec fn bool_labels_of(attr: Seq<char>) -> (Seq<char>, Seq<char>) {
    if attr == "open"@ {
        ("Open"@, "Closed"@)
    } else if attr == "on"@ {
        ("On"@, "Off"@)
    } else if attr == "locked"@ {
        ("Locked"@, "Unlocked"@)
    } else if attr == "muted"@ {
        ("Muted"@, "Unmuted"@)
    } else if attr == "shuffle"@ {
        ("On"@, "Off"@)
    } else if attr == "loudness"@ {
        ("On"@, "Off"@)
    } else if attr == "available"@ {
        ("Online"@, "Offline"@)
    } else if attr == "motion"@ {
        ("Active"@, "Clear"@)
    } else if attr == "occupied"@ {
        ("Occupied"@, "Vacant"@)
    } else if attr == "leak"@ {
        ("Leak detected"@, "Dry"@)
    } else if attr == "vibration"@ {
        ("Active"@, "Clear"@)
    } else {
        ("True"@, "False"@)
    }
}

pub fn bool_labels(attr: &str) -> (r: (&'static str, &'static str))
    ensures
        (r.0@, r.1@) == bool_labels_of(attr@),
{
    if str_eq(attr, "open") {
        ("Open", "Closed")
    } else if str_eq(attr, "on") {
        ("On", "Off")
    } else if str_eq(attr, "locked") {
        ("Locked", "Unlocked")
    } else if str_eq(attr, "muted") {
        ("Muted", "Unmuted")
    } else if str_eq(attr, "shuffle") {
        ("On", "Off")
    } else if str_eq(attr, "loudness") {
        ("On", "Off")
    } else if str_eq(attr, "available") {
        ("Online", "Offline")
    } else if str_eq(attr, "motion") {
        ("Active", "Clear")
    } else if str_eq(attr, "occupied") {
        ("Occupied", "Vacant")
    } else if str_eq(attr, "leak") {
        ("Leak detected", "Dry")
    } else if str_eq(attr, "vibration") {
        ("Active", "Clear")
    } else {
        ("True", "False")
    }
}

/// The heading and border of a group condition: OR, AND, or XOR.
pub fn group_condition_labels(key: &str) -> (r: (&'static str, &'static str))
    ensures
        (r.0@, r.1@) == if key@ == "or"@ {
            ("ANY of these must be true (OR)"@, "cond-group cond-group--or"@)
        } else if key@ == "and"@ {
            ("ALL of these must be true (AND)"@, "cond-group cond-group--and"@)
        } else {
            ("EXACTLY ONE must be true (XOR)"@, "cond-group cond-group--xor"@)
        },
{
    if str_eq(key, "or") {
        ("ANY of these must be true (OR)", "cond-group cond-group--or")
    } else if str_eq(key, "and") {
        ("ALL of these must be true (AND)", "cond-group cond-group--and")
    } else {
        ("EXACTLY ONE must be true (XOR)", "cond-group cond-group--xor")
    }
}

// ── Time ─────────────────────────────────────────────────────────────────────
/// `chrono::Utc::now()`, as seconds and nanoseconds since the Unix epoch.
/// It reads the clock, so the only promise is chrono's bound on the
/// sub-second part (under two seconds' worth of nanoseconds, a leap second
/// included).
#[verifier::external_body]
pub(crate) fn utc_now() -> (r: Moment)
    ensures
        r.nanos < 2_000_000_000,
{
    let now = chrono::Utc::now();
    Moment { secs: now.timestamp(), nanos: now.timestamp_subsec_nanos() }
}

/// The whole seconds from `ts` to `now`, rounded toward zero (what
/// `(now - ts).num_seconds()` gives).
pub open spec fn elapsed_secs(now: Moment, ts: Moment) -> int {
    let d = (now.secs - ts.secs) * 1_000_000_000 + (now.nanos - ts.nanos);
    if d >= 0 {
        d / 1_000_000_000
    } else {
        -((-d) / 1_000_000_000)
    }
}

/// A save's age: just now under five seconds (or in the future), then
/// seconds for the first minute, minutes for the first hour, otherwise
/// hours.
pub open spec fn age_text_of(secs: int) -> Seq<char> {
    if secs < 5 {
        "saved just now"@
    } else if secs < 60 {
        "saved "@ + nat_decimal(secs as nat) + "s ago"@
    } else if secs < 3600 {
        "saved "@ + nat_decimal((secs / 60) as nat) + "m ago"@
    } else {
        "saved "@ + nat_decimal((secs / 3600) as nat) + "h ago"@
    }
}

fn push_age(out: &mut Vec<char>, n: u64, unit: &str)
    ensures
        final(out)@ == old(out)@ + "saved "@ + nat_decimal(n as nat) + unit@,
{
    push_str(out, "saved ");
    let d = u64_decimal(n);
    push_chars(out, &d);
    push_str(out, unit);
    assert(out@ =~= old(out)@ + "saved "@ + nat_decimal(n as nat) + unit@);
}

/// `elapsed_secs`, computed.
pub fn whole_secs_between(now: Moment, ts: Moment) -> (r: i128)
    requires
        now.nanos < 2_000_000_000,
        ts.nanos < 2_000_000_000,
    ensures
        r == elapsed_secs(now, ts),
        -0x1_0000_0000_0000_0003 <= r <= 0x1_0000_0000_0000_0003,
{
    let d: i128 = (now.secs as i128 - ts.secs as i128) * 1_000_000_000 + (now.nanos as i128 - ts.nanos as i128);
    if d >= 0 {
        d / 1_000_000_000
    } else {
        -((-d) / 1_000_000_000)
    }
}

/// The age text of a save at `ts`, seen at `now`.
pub fn relative_age_text(now: Moment, ts: Moment) -> (r: String)
    requires
        now.nanos < 2_000_000_000,
        ts.nanos < 2_000_000_000,
    ensures
        r@ == age_text_of(elapsed_secs(now, ts)),
{
    let secs = whole_secs_between(now, ts);
    let mut out: Vec<char> = Vec::new();
    if secs < 5 {
        push_str(&mut out, "saved just now");
    } else if secs < 60 {
        push_age(&mut out, secs as u64, "s ago");
    } else if secs < 3600 {
        push_age(&mut out, (secs / 60) as u64, "m ago");
    } else {
        assert(secs / 3600 <= u64::MAX) by (nonlinear_arith)
            requires
                secs <= 0x1_0000_0000_0000_0000 + 2,
        ;
        push_age(&mut out, (secs / 3600) as u64, "h ago");
    }
    proof {
        assert(out@ =~= age_text_of(elapsed_secs(now, ts)));
    }
    string_of(&out)
}

/// The age of the last save, by the clock.
pub fn format_relative_age(ts: Moment) -> (r: String)
    requires
        ts.nanos < 2_000_000_000,
    ensures
        exists|now: Moment| r@ == age_text_of(#[trigger] elapsed_secs(now, ts)),
{
    let now = utc_now();
    let r = relative_age_text(now, ts);
    assert(r@ == age_text_of(elapsed_secs(now, ts)));
    r
}

/// The save bar's status: saving, unsaved changes, the age of the last
/// save, or nothing.
pub fn save_status(saving: bool, dirty: bool, last_saved: Option<Moment>) -> (r: String)
    requires
        last_saved matches Some(ts) ==> ts.nanos < 2_000_000_000,
    ensures
        saving ==> r@ == "saving…"@,
        !saving && dirty ==> r@ == "unsaved changes"@,
        !saving && !dirty && last_saved is None ==> r@ == Seq::<char>::empty(),
        !saving && !dirty && last_saved is Some ==> exists|now: Moment|
            r@ == age_text_of(#[trigger] elapsed_secs(now, last_saved.unwrap())),
{
    if saving {
        owned("saving…")
    } else if dirty {
        owned("unsaved changes")
    } else {
        match last_saved {
            Some(ts) => format_relative_age(ts),
            None => {
                let e: Vec<char> = Vec::new();
                let r = string_of(&e);
                assert(r@ =~= Seq::<char>::empty());
                r
            },
        }
    }
}

// ── Loading and saving ───────────────────────────────────────────────────────
/// The editor's rule and what it knows of the server's copy: the rule as
/// last loaded or saved, whether a load or a save is under way, the error
/// to show, and when the rule was last saved.
pub struct EditorState<R> {
    pub rule: R,
    pub saved_rule: Option<R>,
    pub loading: bool,
    pub saving: bool,
    pub error: Option<String>,
    pub last_saved: Option<Moment>,
}

/// Whether the rule has changes the server does not have: a rule was
/// loaded or saved, and the rule now differs from it.
pub open spec fn is_dirty<R>(saved_rule: Option<R>, rule: R) -> bool {
    match saved_rule {
        Some(s) => s != rule,
        None => false,
    }
}

/// What the page does once a save is answered.
pub enum SaveAction {
    /// A new rule was created: open its page.
    Navigate(String),
    /// An existing rule was saved: show this notice.
    Toast(String),
    /// The save failed; the error is in the state.
    Nothing,
}

/// A rule loaded or saved is kept as the server's copy: the saved rule is
/// a clone of the rule.
pub open spec fn adopted<R: Clone>(e: EditorState<R>) -> bool {
    e.saved_rule matches Some(s) && cloned(e.rule, s)
}

impl<R: Clone> EditorState<R> {
    /// The rule fetched for editing, or why it could not be: on success it
    /// becomes both the rule and the server's copy; on failure the error
    /// reads "Load failed: <error>". Loading ends either way.
    pub fn finish_load(&mut self, outcome: Result<R, String>)
        ensures
            !final(self).loading,
            final(self).saving == old(self).saving,
            final(self).last_saved == old(self).last_saved,
            match outcome {
                Ok(r) => final(self).rule == r && adopted(*final(self)) && final(self).error == old(self).error,
                Err(e) => final(self).rule == old(self).rule && final(self).saved_rule == old(self).saved_rule
                    && (final(self).error matches Some(m) && m@ == "Load failed: "@ + e@),
            },
    {
        match outcome {
            Ok(r) => {
                let copy = r.clone();
                self.saved_rule = Some(copy);
                self.rule = r;
            },
            Err(e) => {
                self.error = Some(concat2("Load failed: ", e.as_str()));
            },
        }
        self.loading = false;
    }

    /// Pressing Save with the rule's name: a rule without a name is not
    /// sent and the error says so; otherwise the error clears and the save
    /// is under way.
    pub fn begin_save(&mut self, name: &str) -> (started: bool)
        ensures
            started == (trimmed(name@).len() > 0),
            final(self).rule == old(self).rule,
            final(self).saved_rule == old(self).saved_rule,
            final(self).loading == old(self).loading,
            final(self).last_saved == old(self).last_saved,
            started ==> final(self).saving && final(self).error is None,
            !started ==> final(self).saving == old(self).saving && (final(self).error matches Some(m) && m@
                == "Rule name is required."@),
    {
        match validate_for_save(name) {
            Ok(()) => {
                self.error = None;
                self.saving = true;
                true
            },
            Err(e) => {
                self.error = Some(e);
                false
            },
        }
    }

    /// The answer to a save, with the saved rule and its id. A new rule's
    /// page opens (`/rules/<id>`), and nothing else changes; a saved
    /// existing rule becomes both the rule and the server's copy, stamped
    /// with the time, and a notice says so; a failure keeps the rule and
    /// shows the error. The save is over in every case.
    pub fn finish_save(&mut self, is_new: bool, outcome: Result<(R, u128), String>) -> (action: SaveAction)
        ensures
            !final(self).saving,
            final(self).loading == old(self).loading,
            match outcome {
                Ok((r, id)) => if is_new {
                    action matches SaveAction::Navigate(href) && href@ == "/rules/"@ + uuid_text_of(id as nat)
                        && final(self).rule == old(self).rule && final(self).saved_rule == old(self).saved_rule
                        && final(self).error == old(self).error && final(self).last_saved == old(self).last_saved
                } else {
                    (action matches SaveAction::Toast(t) && t@ == "Saved successfully"@) && final(self).rule == r
                        && adopted(*final(self)) && final(self).error == old(self).error
                        && (final(self).last_saved matches Some(m) && m.nanos < 2_000_000_000)
                },
                Err(e) => action is Nothing && final(self).rule == old(self).rule && final(self).saved_rule
                    == old(self).saved_rule && final(self).last_saved == old(self).last_saved
                    && final(self).error == Some(e),
            },
    {
        let action = match outcome {
            Ok((r, id)) => {
                if is_new {
                    let text = uuid_text(id);
                    SaveAction::Navigate(concat2("/rules/", text.as_str()))
                } else {
                    let copy = r.clone();
                    self.saved_rule = Some(copy);
                    self.rule = r;
                    self.last_saved = Some(utc_now());
                    SaveAction::Toast(owned("Saved successfully"))
                }
            },
            Err(e) => {
                self.error = Some(e);
                SaveAction::Nothing
            },
        };
        self.saving = false;
        action
    }
}

/// A rule just loaded or saved has no unsaved changes, for a rule type
/// whose clone is an exact copy.
pub proof fn law_adopted_is_clean<R: Clone>(e: EditorState<R>)
    requires
        forall|a: R, b: R| cloned(a, b) ==> a == b,
        adopted(e),
    ensures
        !is_dirty(e.saved_rule, e.rule),
{
}

// ── Rule ids ─────────────────────────────────────────────────────────────────
/// A hexadecimal digit, lower case.
pub open spec fn hex_digit(d: nat) -> char {
    if d < 10 {
        ((d + 48) as u32) as char
    } else {
        ((d + 87) as u32) as char
    }
}

/// The `n` lowest hexadecimal digits of `u`, the most significant first.
pub open spec fn hex_digits(u: nat, n: nat) -> Seq<char>
    decreases n,
{
    if n == 0 {
        Seq::empty()
    } else {
        hex_digits(u / 16, (n - 1) as nat).push(hex_digit(u % 16))
    }
}

/// A 128-bit UUID as text: 32 lower-case hexadecimal digits, the most
/// significant first, grouped 8-4-4-4-12 by hyphens.
pub open spec fn uuid_text_of(u: nat) -> Seq<char> {
    let h = hex_digits(u, 32);
    h.subrange(0, 8) + "-"@ + h.subrange(8, 12) + "-"@ + h.subrange(12, 16) + "-"@ + h.subrange(16, 20) + "-"@
        + h.subrange(20, 32)
}

/// `uuid::Uuid::from_u128(u).to_string()`: the uuid crate writes a UUID
/// hyphenated in lower case, its 16 bytes in big-endian order.
#[verifier::external_body]
fn uuid_text(u: u128) -> (r: String)
    ensures
        r@ == uuid_text_of(u as nat),
{
    uuid::Uuid::from_u128(u).to_string()
}

/// The value the rule picker of an action shows: the referenced rule's id,
/// or nothing.
pub fn rule_picker_value(rule_id: Option<u128>) -> (r: String)
    ensures
        r@ == match rule_id {
            Some(u) => uuid_text_of(u as nat),
            None => Seq::<char>::empty(),
        },
{
    match rule_id {
        Some(u) => uuid_text(u),
        None => {
            let r = owned("");
            proof {
                reveal_strlit("");
            }
            r
        },
    }
}

/// The 128-bit value that `uuid::Uuid::parse_str` reads from a text, or
/// `None` where it refuses the text.
pub uninterp spec fn uuid_value(s: Seq<char>) -> Option<nat>;

/// `uuid::Uuid::parse_str(text).ok()`, as the UUID's 128-bit value. The
/// formats it reads (simple, hyphenated, braced, URN) are not restated.
#[verifier::external_body]
fn parse_uuid(text: &str) -> (r: Option<u128>)
    ensures
        match r {
            Some(n) => uuid_value(text@) == Some(n as nat),
            None => uuid_value(text@) is None,
        },
{
    match uuid::Uuid::parse_str(text) {
        Ok(u) => Some(u.as_u128()),
        Err(_) => None,
    }
}

/// An optional rule reference: blank is none, else the text's UUID value
/// where it has one.
pub fn optional_rule_ref(text: &str) -> (r: Option<u128>)
    ensures
        match r {
            Some(n) => text@.len() > 0 && uuid_value(text@) == Some(n as nat),
            None => text@.len() == 0 || uuid_value(text@) is None,
        },
{
    if text.unicode_len() == 0 {
        None
    } else {
        parse_uuid(text)
    }
}

/// A required rule reference: the text's UUID value where it has one.
pub fn rule_ref(text: &str) -> (r: Option<u128>)
    ensures
        match r {
            Some(n) => uuid_value(text@) == Some(n as nat),
            None => uuid_value(text@) is None,
        },
{
    parse_uuid(text)
}

// ── Test runs and fire history ───────────────────────────────────────────────
/// The summary line of a test run: whether the rule would fire, and how
/// many actions would run.
pub struct TestSummary {
    pub would_fire: bool,
    pub class: &'static str,
    pub text: &'static str,
    pub icon: &'static str,
    /// ` — N action(s)` when it would fire, else nothing.
    pub suffix: String,
}

pub open spec fn array_len_or_zero(v: JsonV) -> nat {
    match v.as_array() {
        Some(items) => items.len(),
        None => 0,
    }
}

pub fn test_summary(r: &Json) -> (s: TestSummary)
    ensures
        s.would_fire == (bool_at(r@, "would_fire"@) == Some(true)),
        s.class@ == if s.would_fire { "test-overall--pass"@ } else { "test-overall--fail"@ },
        s.text@ == if s.would_fire { "Rule WOULD fire"@ } else { "Rule would NOT fire"@ },
        s.icon@ == if s.would_fire { "check-circle"@ } else { "x-circle"@ },
        s.suffix@ == if s.would_fire {
            " — "@ + nat_decimal(array_len_or_zero(r@.at("actions"@))) + " action(s)"@
        } else {
            Seq::<char>::empty()
        },
{
    let would_fire = bool_field(r, "would_fire") == Some(true);
    let count: usize = match json_get(r, "actions") {
        Some(Json::Array(items)) => {
            proof {
                crate::json::lemma_jv_items(*items, items.len() as nat);
            }
            items.len()
        },
        _ => 0,
    };
    let mut suffix: Vec<char> = Vec::new();
    if would_fire {
        push_str(&mut suffix, " — ");
        let d = u64_decimal(count as u64);
        push_chars(&mut suffix, &d);
        push_str(&mut suffix, " action(s)");
    }
    assert(would_fire ==> suffix@ =~= " — "@ + nat_decimal(array_len_or_zero(r@.at("actions"@))) + " action(s)"@);
    assert(!would_fire ==> suffix@ =~= Seq::<char>::empty());
    TestSummary {
        would_fire,
        class: if would_fire { "test-overall--pass" } else { "test-overall--fail" },
        text: if would_fire { "Rule WOULD fire" } else { "Rule would NOT fire" },
        icon: if would_fire { "check-circle" } else { "x-circle" },
        suffix: string_of(&suffix),
    }
}

/// One condition of a test run.
pub struct TestConditionRow {
    pub passed: bool,
    pub badge_class: &'static str,
    pub icon: &'static str,
    /// The condition's kind: the first key of its object, or `unknown`.
    pub cond_type: String,
    pub reason: String,
    /// The actual and expected values as compact JSON; empty where absent
    /// or null.
    pub actual: String,
    pub expected: String,
}

pub open spec fn first_key_or(v: JsonV, d: Seq<char>) -> Seq<char> {
    match v {
        JsonV::Obj(es) => if es.len() > 0 {
            es[0].0
        } else {
            d
        },
        _ => d,
    }
}

pub open spec fn shown_value(v: Option<JsonV>) -> Seq<char> {
    match v {
        Some(JsonV::Null) => Seq::empty(),
        Some(x) => compact(x),
        None => Seq::empty(),
    }
}

fn shown_value_of(j: &Json, key: &str) -> (r: String)
    ensures
        r@ == shown_value(j@.get(key@)),
{
    match json_get(j, key) {
        Some(Json::Null) | None => {
            let e: Vec<char> = Vec::new();
            let r = string_of(&e);
            assert(r@ =~= Seq::<char>::empty());
            r
        },
        Some(v) => compact_json(v),
    }
}

pub fn test_condition_row(cond: &Json) -> (r: TestConditionRow)
    ensures
        r.passed == (bool_at(cond@, "passed"@) == Some(true)),
        r.badge_class@ == if r.passed { "test-badge test-badge--pass"@ } else { "test-badge test-badge--fail"@ },
        r.icon@ == if r.passed { "check"@ } else { "x"@ },
        r.cond_type@ == first_key_or(cond@.at("condition"@), "unknown"@),
        r.reason@ == str_at_or(cond@, "reason"@, ""@),
        r.actual@ == shown_value(cond@.get("actual"@)),
        r.expected@ == shown_value(cond@.get("expected"@)),
{
    let passed = bool_field(cond, "passed") == Some(true);
    let cond_type = match json_get(cond, "condition") {
        Some(Json::Object(entries)) => {
            proof {
                crate::json::lemma_jv_entries(*entries, entries.len() as nat);
            }
            if entries.len() > 0 {
                owned(entries[0].0.as_str())
            } else {
                owned("unknown")
            }
        },
        _ => owned("unknown"),
    };
    TestConditionRow {
        passed,
        badge_class: if passed { "test-badge test-badge--pass" } else { "test-badge test-badge--fail" },
        icon: if passed { "check" } else { "x" },
        cond_type,
        reason: str_field_or(cond, "reason", ""),
        actual: shown_value_of(cond, "actual"),
        expected: shown_value_of(cond, "expected"),
    }
}

/// One entry of a rule's fire history.
pub struct FireEntry {
    pub timestamp: String,
    pub result: String,
    pub actions_run: u64,
    pub elapsed_ms: u64,
    /// A result other than `ok` and `success`.
    pub is_err: bool,
}

pub fn fire_entry(entry: &Json) -> (r: FireEntry)
    ensures
        r.timestamp@ == str_at_or(entry@, "timestamp"@, ""@),
        r.result@ == str_at_or(entry@, "result"@, "ok"@),
        r.actions_run as nat == crate::glue::u64_or(entry@, "actions_executed"@, 0),
        r.elapsed_ms as nat == crate::glue::u64_or(entry@, "elapsed_ms"@, 0),
        r.is_err == (r.result@ != "ok"@ && r.result@ != "success"@),
{
    let result = str_field_or(entry, "result", "ok");
    let is_err = !str_eq(result.as_str(), "ok") && !str_eq(result.as_str(), "success");
    FireEntry {
        timestamp: str_field_or(entry, "timestamp", ""),
        result,
        actions_run: match u64_field(entry, "actions_executed") {
            Some(n) => n,
            None => 0,
        },
        elapsed_ms: match u64_field(entry, "elapsed_ms") {
            Some(n) => n,
            None => 0,
        },
        is_err,
    }
}

/// `match_value` of a typed text, read as JSON here.
pub fn match_value_text(raw: &str) -> (r: Option<Json>)
    ensures
        opt_jv(r) == match_value_of(raw@, crate::json::json_text_value(raw@)),
{
    match_value(raw, crate::json::parse_json(raw))
}

/// `condition_value` of a typed text, read as JSON here.
pub fn condition_value_text(raw: &str) -> (r: Json)
    ensures
        r@ == condition_value_of(raw@, crate::json::json_text_value(raw@)),
{
    condition_value(raw, crate::json::parse_json(raw))
}

/// A typed value that is stored whatever it is: its JSON value, or the text
/// itself where it is not JSON.
pub fn json_or_text(raw: &str) -> (r: Json)
    ensures
        r@ == match crate::json::json_text_value(raw@) {
            Some(v) => v,
            None => JsonV::Str(raw@),
        },
{
    match crate::json::parse_json(raw) {
        Some(v) => v,
        None => Json::Str(owned(raw)),
    }
}

/// An optional JSON value typed as text: blank is none, and so is text that
/// is not JSON.
pub fn optional_json_text(raw: &str) -> (r: Option<Json>)
    ensures
        opt_jv(r) == if trimmed(raw@).len() == 0 {
            None
        } else {
            crate::json::json_text_value(raw@)
        },
{
    let t = trim(raw);
    if t.as_str().unicode_len() == 0 {
        return None;
    }
    crate::json::parse_json(raw)
}

} // verus!
