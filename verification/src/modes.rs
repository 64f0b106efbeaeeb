//! The modes page: mode ids typed by the operator, the one-line summaries of
//! criteria, and the rows, filters and order of the mode list.
use vstd::prelude::*;
use crate::text::{
    trimmed, is_ascii_alnum, ascii_lower, is_ws, chars_of, trim_chars, to_ascii_lower, string_of,
    push_str, push_chars, starts_with, has_prefix, lemma_trimmed_of_clean, owned, str_eq,
};
use crate::json::{
    Json, JsonV, compact, compact_json, str_at_or, str_at, bool_at, jv, jv_items, lemma_jv_items,
    json_get, json_get_index, str_field_or, str_field, bool_field,
};

verus! {

// ── Mode ids ─────────────────────────────────────────────────────────────────
/// The slug being built, and whether its last character is a separator,
/// after the characters of `s`: ASCII letters and digits are kept in lower
/// case, and each run of other characters becomes one `_`.
pub open spec fn slug_state(s: Seq<char>) -> (Seq<char>, bool)
    decreases s.len(),
{
    if s.len() == 0 {
        (Seq::empty(), false)
    } else {
        let prev = slug_state(s.drop_last());
        let c = s.last();
        if is_ascii_alnum(c) {
            (prev.0.push(ascii_lower(c)), false)
        } else if !prev.1 {
            (prev.0.push('_'), true)
        } else {
            prev
        }
    }
}

/// Index of the first character of `s` that is not `_` (or `s.len()`).
pub open spec fn first_non_us(s: Seq<char>, i: int) -> int
    decreases s.len() - i,
{
    if i < 0 || i >= s.len() {
        if i < 0 {
            0
        } else {
            s.len() as int
        }
    } else if s[i] == '_' {
        first_non_us(s, i + 1)
    } else {
        i
    }
}

pub open spec fn last_non_us(s: Seq<char>, j: int) -> int
    decreases j,
{
    if j <= 0 {
        0
    } else if s[j - 1] == '_' {
        last_non_us(s, j - 1)
    } else {
        j
    }
}

/// `s.trim_matches('_')`.
pub open spec fn strip_us(s: Seq<char>) -> Seq<char> {
    let a = first_non_us(s, 0);
    let b = last_non_us(s, s.len() as int);
    if a >= b {
        Seq::empty()
    } else {
        s.subrange(a, b)
    }
}

/// The mode id for what the operator typed: a lower-case slug of ASCII
/// letters, digits and single `_`, prefixed with `mode_` unless it already
/// is; empty when nothing usable was typed.
pub open spec fn mode_id_for(raw: Seq<char>) -> Seq<char> {
    let t = trimmed(raw);
    if t.len() == 0 {
        Seq::empty()
    } else {
        let slug = strip_us(slug_state(t).0);
        if slug.len() == 0 {
            Seq::empty()
        } else if starts_with(slug, "mode_"@) {
            slug
        } else {
            "mode_"@ + slug
        }
    }
}

proof fn lemma_first_non_us(s: Seq<char>, i: int)
    requires
        0 <= i <= s.len(),
    ensures
        i <= first_non_us(s, i) <= s.len(),
        forall|k: int| i <= k < first_non_us(s, i) ==> #[trigger] s[k] == '_',
        first_non_us(s, i) < s.len() ==> s[first_non_us(s, i)] != '_',
    decreases s.len() - i,
{
    if i < s.len() && s[i] == '_' {
        lemma_first_non_us(s, i + 1);
    }
}

proof fn lemma_last_non_us(s: Seq<char>, j: int)
    requires
        0 <= j <= s.len(),
    ensures
        0 <= last_non_us(s, j) <= j,
        forall|k: int| last_non_us(s, j) <= k < j ==> #[trigger] s[k] == '_',
        last_non_us(s, j) > 0 ==> s[last_non_us(s, j) - 1] != '_',
    decreases j,
{
    if j > 0 && s[j - 1] == '_' {
        lemma_last_non_us(s, j - 1);
    }
}

fn slug_of(t: &Vec<char>) -> (r: Vec<char>)
    ensures
        r@ == slug_state(t@).0,
{
    let mut slug: Vec<char> = Vec::new();
    let mut last_was_sep = false;
    let mut i: usize = 0;
    while i < t.len()
        invariant
            i <= t.len(),
            slug_state(t@.subrange(0, i as int)) == (slug@, last_was_sep),
        decreases t.len() - i,
    {
        let ch = t[i];
        proof {
            assert(t@.subrange(0, i + 1).drop_last() =~= t@.subrange(0, i as int));
            assert(t@.subrange(0, i + 1).last() == ch);
        }
        if ('0' <= ch && ch <= '9') || ('a' <= ch && ch <= 'z') || ('A' <= ch && ch <= 'Z') {
            slug.push(to_ascii_lower(ch));
            last_was_sep = false;
        } else if !last_was_sep {
            slug.push('_');
            last_was_sep = true;
        }
        i = i + 1;
    }
    assert(t@.subrange(0, t.len() as int) =~= t@);
    slug
}

fn strip_underscores(s: &Vec<char>) -> (r: Vec<char>)
    ensures
        r@ == strip_us(s@),
{
    let n = s.len();
    let mut a: usize = 0;
    while a < n && s[a] == '_'
        invariant
            n == s.len(),
            a <= n,
            first_non_us(s@, a as int) == first_non_us(s@, 0),
        decreases n - a,
    {
        a = a + 1;
    }
    let mut b: usize = n;
    while b > 0 && s[b - 1] == '_'
        invariant
            n == s.len(),
            b <= n,
            last_non_us(s@, b as int) == last_non_us(s@, n as int),
        decreases b,
    {
        b = b - 1;
    }
    let mut r: Vec<char> = Vec::new();
    if a < b {
        let mut i = a;
        while i < b
            invariant
                a <= i <= b <= n == s.len(),
                r@ == s@.subrange(a as int, i as int),
            decreases b - i,
        {
            r.push(s[i]);
            i = i + 1;
        }
    }
    r
}

/// The mode id for what the operator typed in the id box (see `mode_id_for`).
pub fn parse_mode_id_input(raw: &str) -> (r: String)
    ensures
        r@ == mode_id_for(raw@),
{
    let t = trim_chars(&chars_of(raw));
    if t.len() == 0 {
        return string_of(&Vec::new());
    }
    let slug = strip_underscores(&slug_of(&t));
    if slug.len() == 0 {
        return string_of(&Vec::new());
    }
    let prefix = chars_of("mode_");
    if has_prefix(&slug, &prefix) {
        string_of(&slug)
    } else {
        let mut out: Vec<char> = Vec::new();
        push_str(&mut out, "mode_");
        push_chars(&mut out, &slug);
        string_of(&out)
    }
}

/// The characters a mode id is made of.
pub open spec fn id_char(c: char) -> bool {
    ('a' <= c && c <= 'z') || ('0' <= c && c <= '9') || c == '_'
}

/// A slug as the id box leaves it: id characters only, no `_` at either end
/// and never two in a row.
pub open spec fn clean_slug(s: Seq<char>) -> bool {
    &&& forall|i: int| 0 <= i < s.len() ==> id_char(#[trigger] s[i])
    &&& s.len() > 0 ==> s[0] != '_' && s[s.len() - 1] != '_'
    &&& forall|i: int| 0 <= i < s.len() - 1 ==> !(#[trigger] s[i] == '_' && s[i + 1] == '_')
}

proof fn lemma_slug_state_clean(s: Seq<char>)
    ensures
        forall|i: int| 0 <= i < slug_state(s).0.len() ==> id_char(#[trigger] slug_state(s).0[i]),
        forall|i: int|
            0 <= i < slug_state(s).0.len() - 1 ==> !(#[trigger] slug_state(s).0[i] == '_' && slug_state(s).0[i + 1] == '_'),
        slug_state(s).1 <==> (slug_state(s).0.len() > 0 && slug_state(s).0.last() == '_'),
    decreases s.len(),
{
    if s.len() > 0 {
        lemma_slug_state_clean(s.drop_last());
        let c = s.last();
        if is_ascii_alnum(c) {
            assert('a' <= ascii_lower(c) <= 'z' || '0' <= ascii_lower(c) <= '9');
        }
    }
}

proof fn lemma_strip_clean(s: Seq<char>)
    requires
        forall|i: int| 0 <= i < s.len() ==> id_char(#[trigger] s[i]),
        forall|i: int| 0 <= i < s.len() - 1 ==> !(#[trigger] s[i] == '_' && s[i + 1] == '_'),
    ensures
        clean_slug(strip_us(s)),
{
    lemma_first_non_us(s, 0);
    lemma_last_non_us(s, s.len() as int);
    let a = first_non_us(s, 0);
    let b = last_non_us(s, s.len() as int);
    if a < b {
        let r = s.subrange(a, b);
        assert forall|i: int| 0 <= i < r.len() - 1 implies !(#[trigger] r[i] == '_' && r[i + 1] == '_') by {
            assert(r[i] == s[a + i] && r[i + 1] == s[a + i + 1]);
        }
    }
}

/// A clean slug goes through the slug builder unchanged.
proof fn lemma_slug_state_of_clean(s: Seq<char>)
    requires
        forall|i: int| 0 <= i < s.len() ==> id_char(#[trigger] s[i]),
        s.len() > 0 ==> s[0] != '_',
        forall|i: int| 0 <= i < s.len() - 1 ==> !(#[trigger] s[i] == '_' && s[i + 1] == '_'),
    ensures
        slug_state(s).0 == s,
        slug_state(s).1 <==> (s.len() > 0 && s.last() == '_'),
    decreases s.len(),
{
    if s.len() > 0 {
        let p = s.drop_last();
        assert forall|i: int| 0 <= i < p.len() - 1 implies !(#[trigger] p[i] == '_' && p[i + 1] == '_') by {
            assert(p[i] == s[i] && p[i + 1] == s[i + 1]);
        }
        lemma_slug_state_of_clean(p);
        if s.len() >= 2 {
            assert(!(s[s.len() - 2] == '_' && s[s.len() - 1] == '_'));
        }
        assert(p.push(s.last()) =~= s);
    }
}

proof fn lemma_strip_of_clean(s: Seq<char>)
    requires
        clean_slug(s),
    ensures
        strip_us(s) == s,
{
    if s.len() > 0 {
        assert(first_non_us(s, 0) == 0);
        assert(last_non_us(s, s.len() as int) == s.len());
        assert(s.subrange(0, s.len() as int) =~= s);
    }
}

/// The ids the id box produces are empty or start with `mode_`, and are made
/// of ASCII lower-case letters, digits and single inner `_`.
pub proof fn law_mode_id_shape(raw: Seq<char>)
    ensures
        mode_id_for(raw).len() == 0 || starts_with(mode_id_for(raw), "mode_"@),
        clean_slug(mode_id_for(raw)),
{
    reveal_strlit("mode_");
    assert("mode_"@.len() == 5);
    let t = trimmed(raw);
    if t.len() > 0 {
        lemma_slug_state_clean(t);
        lemma_strip_clean(slug_state(t).0);
        let slug = strip_us(slug_state(t).0);
        if slug.len() > 0 && !starts_with(slug, "mode_"@) {
            let out = "mode_"@ + slug;
            assert(out.subrange(0, 5) =~= "mode_"@);
            assert forall|i: int| 0 <= i < out.len() - 1 implies !(#[trigger] out[i] == '_' && out[i + 1] == '_') by {
                if i >= 5 {
                    assert(out[i] == slug[i - 5] && out[i + 1] == slug[i - 4]);
                } else if i == 4 {
                    assert(out[i + 1] == slug[0]);
                }
            }
            assert forall|i: int| 0 <= i < out.len() implies id_char(#[trigger] out[i]) by {
                if i >= 5 {
                    assert(out[i] == slug[i - 5]);
                }
            }
        }
    } else {
        assert(mode_id_for(raw) =~= Seq::<char>::empty());
    }
}

/// Typing an id the box produced gives the same id again.
pub proof fn law_mode_id_idempotent(raw: Seq<char>)
    ensures
        mode_id_for(mode_id_for(raw)) == mode_id_for(raw),
{
    law_mode_id_shape(raw);
    let o = mode_id_for(raw);
    if o.len() > 0 {
        assert forall|i: int| 0 <= i < o.len() implies !is_ws(#[trigger] o[i]) by {
            assert(id_char(o[i]));
        }
        lemma_trimmed_of_clean(o);
        lemma_slug_state_of_clean(o);
        lemma_strip_of_clean(o);
        reveal_strlit("mode_");
        assert("mode_"@.len() == 5);
    } else {
        assert(trimmed(o).len() == 0) by {
            lemma_trimmed_of_clean(o);
        }
    }
}

proof fn lemma_slug_alnum(t: Seq<char>)
    ensures
        forall|j: int| 0 <= j < slug_state(t).0.len() ==> #[trigger] slug_state(t).0[j] == '_' || is_ascii_alnum(
            slug_state(t).0[j],
        ),
        (exists|i: int| 0 <= i < t.len() && #[trigger] is_ascii_alnum(t[i])) == (exists|j: int|
            0 <= j < slug_state(t).0.len() && #[trigger] slug_state(t).0[j] != '_'),
    decreases t.len(),
{
    if t.len() > 0 {
        let p = t.drop_last();
        lemma_slug_alnum(p);
        let prev = slug_state(p).0;
        let cur = slug_state(t).0;
        let c = t.last();
        assert forall|i: int| 0 <= i < p.len() implies #[trigger] p[i] == t[i] by {}
        if is_ascii_alnum(c) {
            assert(cur == prev.push(ascii_lower(c)));
            assert(cur[prev.len() as int] != '_');
            assert(is_ascii_alnum(t[t.len() - 1]));
        } else {
            assert forall|j: int| 0 <= j < cur.len() && cur[j] != '_' implies j < prev.len() && #[trigger] prev[j]
                == cur[j] by {}
            if exists|i: int| 0 <= i < t.len() && #[trigger] is_ascii_alnum(t[i]) {
                let i = choose|i: int| 0 <= i < t.len() && #[trigger] is_ascii_alnum(t[i]);
                assert(i < p.len() && is_ascii_alnum(p[i]));
                let j = choose|j: int| 0 <= j < prev.len() && #[trigger] prev[j] != '_';
                assert(cur[j] == prev[j]);
            }
            if exists|j: int| 0 <= j < cur.len() && #[trigger] cur[j] != '_' {
                let j = choose|j: int| 0 <= j < cur.len() && #[trigger] cur[j] != '_';
                assert(prev[j] != '_');
                let i = choose|i: int| 0 <= i < p.len() && #[trigger] is_ascii_alnum(p[i]);
                assert(is_ascii_alnum(t[i]));
            }
        }
    }
}

proof fn lemma_strip_empty(s: Seq<char>)
    ensures
        (strip_us(s).len() == 0) == (forall|j: int| 0 <= j < s.len() ==> #[trigger] s[j] == '_'),
{
    lemma_first_non_us(s, 0);
    lemma_last_non_us(s, s.len() as int);
    let a = first_non_us(s, 0);
    let b = last_non_us(s, s.len() as int);
    if exists|j: int| 0 <= j < s.len() && #[trigger] s[j] != '_' {
        let j = choose|j: int| 0 <= j < s.len() && #[trigger] s[j] != '_';
        assert(a <= j < b);
    } else {
        assert(a == s.len());
    }
}

/// A typed mode id comes out empty exactly when the text holds no ASCII
/// letter or digit.
pub proof fn law_mode_id_empty(raw: Seq<char>)
    ensures
        (mode_id_for(raw).len() == 0) == !(exists|i: int| 0 <= i < raw.len() && #[trigger] is_ascii_alnum(raw[i])),
{
    let t = trimmed(raw);
    crate::text::lemma_trimmed_keeps_alnum(raw);
    lemma_slug_alnum(t);
    lemma_strip_empty(slug_state(t).0);
    reveal_strlit("mode_");
    assert("mode_"@.len() == 5);
}

// ── Criteria summaries ───────────────────────────────────────────────────────
/// The symbol shown for a comparison operator.
pub open spec fn op_label(op: Seq<char>) -> Seq<char> {
    if op == "eq"@ {
        "="@
    } else if op == "ne"@ {
        "!="@
    } else if op == "gt"@ {
        ">"@
    } else if op == "gte"@ {
        ">="@
    } else if op == "lt"@ {
        "<"@
    } else if op == "lte"@ {
        "<="@
    } else {
        "?"@
    }
}

/// The symbol shown for a comparison operator.
pub fn compare_op_label(value: &str) -> (r: &'static str)
    ensures
        r@ == op_label(value@),
{
    if str_eq(value, "eq") {
        "="
    } else if str_eq(value, "ne") {
        "!="
    } else if str_eq(value, "gt") {
        ">"
    } else if str_eq(value, "gte") {
        ">="
    } else if str_eq(value, "lt") {
        "<"
    } else if str_eq(value, "lte") {
        "<="
    } else {
        "?"
    }
}

/// A value as a summary shows it: strings bare, anything else as compact JSON.
pub open spec fn short_text(v: JsonV) -> Seq<char> {
    match v {
        JsonV::Str(t) => t,
        _ => compact(v),
    }
}

pub fn short_json_value(value: &Json) -> (r: String)
    ensures
        r@ == short_text(value@),
{
    match value {
        Json::Str(t) => owned(t.as_str()),
        _ => compact_json(value),
    }
}

/// The label under `id` in a list of `(id, label)` pairs; a later pair for
/// the same id replaces an earlier one, as inserting them into a map does.
pub open spec fn label_of(labels: Seq<(Seq<char>, Seq<char>)>, id: Seq<char>) -> Option<Seq<char>>
    decreases labels.len(),
{
    if labels.len() == 0 {
        None
    } else if labels.last().0 == id {
        Some(labels.last().1)
    } else {
        label_of(labels.drop_last(), id)
    }
}

pub open spec fn labels_view(labels: Seq<(String, String)>) -> Seq<(Seq<char>, Seq<char>)> {
    Seq::new(labels.len(), |i: int| (labels[i].0@, labels[i].1@))
}

/// `label_of`, or `id` itself when there is none.
pub open spec fn label_or_id(labels: Seq<(Seq<char>, Seq<char>)>, id: Seq<char>) -> Seq<char> {
    match label_of(labels, id) {
        Some(l) => l,
        None => id,
    }
}

fn lookup_label(labels: &Vec<(String, String)>, id: &str) -> (r: String)
    ensures
        r@ == label_or_id(labels_view(labels@), id@),
{
    let ghost lv = labels_view(labels@);
    assert(lv.subrange(0, labels.len() as int) =~= lv);
    let mut i: usize = labels.len();
    while i > 0
        invariant
            i <= labels.len(),
            lv == labels_view(labels@),
            label_of(lv, id@) == label_of(lv.subrange(0, i as int), id@),
        decreases i,
    {
        let ghost sub = lv.subrange(0, i as int);
        assert(sub.drop_last() =~= lv.subrange(0, i - 1));
        if str_eq(labels[i - 1].0.as_str(), id) {
            return owned(labels[i - 1].1.as_str());
        }
        i = i - 1;
    }
    owned(id)
}

/// The joiner between the summaries of a group's conditions.
pub open spec fn joiner_for(t: Seq<char>) -> Seq<char> {
    if t == "and"@ {
        " and "@
    } else if t == "or"@ {
        " or "@
    } else {
        " xor "@
    }
}

/// A one-line summary of a criteria condition, with device and mode ids
/// shown by their labels where the lists have them.
pub open spec fn summary(v: JsonV, dl: Seq<(Seq<char>, Seq<char>)>, ml: Seq<(Seq<char>, Seq<char>)>) -> Seq<char>
    decreases v, 0nat,
{
    if !v.is_object() {
        compact(v)
    } else {
        match str_at(v, "type"@) {
            Some(t) => if t == "device_state"@ {
                let device_id = str_at_or(v, "device_id"@, "device"@);
                let attribute = str_at_or(v, "attribute"@, "attribute"@);
                let op = str_at_or(v, "op"@, "eq"@);
                let rendered = match v.get("value"@) {
                    Some(x) => short_text(x),
                    None => "?"@,
                };
                label_or_id(dl, device_id) + " "@ + attribute + " "@ + op_label(op) + " "@ + rendered
            } else if t == "mode_is"@ {
                let mode_id = str_at_or(v, "mode_id"@, "mode"@);
                let state = if bool_at(v, "on"@) == Some(true) {
                    "on"@
                } else {
                    "off"@
                };
                label_or_id(ml, mode_id) + " is "@ + state
            } else if t == "and"@ || t == "or"@ || t == "xor"@ {
                match v.index_of("conditions"@) {
                    Some(k) => if 0 <= k < v->Obj_0.len() {
                        match v->Obj_0[k].1 {
                            JsonV::Arr(items) => if items.len() == 0 {
                                "No criteria"@
                            } else {
                                summaries_joined(items, items.len(), joiner_for(t), dl, ml)
                            },
                            _ => compact(v),
                        }
                    } else {
                        compact(v)
                    },
                    None => compact(v),
                }
            } else if t == "not"@ {
                match v.index_of("condition"@) {
                    Some(k) => if 0 <= k < v->Obj_0.len() {
                        "not ("@ + summary(v->Obj_0[k].1, dl, ml) + ")"@
                    } else {
                        compact(v)
                    },
                    None => compact(v),
                }
            } else if t == "time_window"@ {
                "time between "@ + str_at_or(v, "start"@, "?"@) + " and "@ + str_at_or(v, "end"@, "?"@)
            } else if t == "hub_variable"@ {
                let name = str_at_or(v, "name"@, "variable"@);
                let op = str_at_or(v, "op"@, "eq"@);
                let rendered = match v.get("value"@) {
                    Some(x) => short_text(x),
                    None => "?"@,
                };
                name + " "@ + op_label(op) + " "@ + rendered
            } else {
                compact(v)
            },
            None => compact(v),
        }
    }
}

/// The summaries of the first `n` items, joined by `joiner`.
pub open spec fn summaries_joined(items: Seq<JsonV>, n: nat, joiner: Seq<char>, dl: Seq<(Seq<char>, Seq<char>)>, ml: Seq<(Seq<char>, Seq<char>)>) -> Seq<char>
    decreases items, n,
{
    if n == 0 || n > items.len() {
        Seq::empty()
    } else if n == 1 {
        summary(items[0], dl, ml)
    } else {
        summaries_joined(items, (n - 1) as nat, joiner, dl, ml) + joiner + summary(items[n - 1], dl, ml)
    }
}

fn push_rendered_value(out: &mut Vec<char>, value: &Json)
    ensures
        final(out)@ == old(out)@ + match value@.get("value"@) {
            Some(x) => short_text(x),
            None => "?"@,
        },
{
    match json_get(value, "value") {
        Some(x) => {
            let t = short_json_value(x);
            push_str(out, t.as_str());
        },
        None => push_str(out, "?"),
    }
}

/// A one-line summary of a criteria condition (see `summary`).
pub fn condition_summary(value: &Json, device_labels: &Vec<(String, String)>, mode_labels: &Vec<(String, String)>) -> (r: String)
    ensures
        r@ == summary(value@, labels_view(device_labels@), labels_view(mode_labels@)),
    decreases value,
{
    let ghost dl = labels_view(device_labels@);
    let ghost ml = labels_view(mode_labels@);
    let entries = match value {
        Json::Object(entries) => entries,
        _ => {
            return compact_json(value);
        },
    };
    let t = match str_field(value, "type") {
        Some(t) => t,
        None => {
            return compact_json(value);
        },
    };
    let mut out: Vec<char> = Vec::new();
    if str_eq(t.as_str(), "device_state") {
        let device_id = str_field_or(value, "device_id", "device");
        let label = lookup_label(device_labels, device_id.as_str());
        let attribute = str_field_or(value, "attribute", "attribute");
        let op = str_field_or(value, "op", "eq");
        push_str(&mut out, label.as_str());
        push_str(&mut out, " ");
        push_str(&mut out, attribute.as_str());
        push_str(&mut out, " ");
        push_str(&mut out, compare_op_label(op.as_str()));
        push_str(&mut out, " ");
        push_rendered_value(&mut out, value);
        assert(out@ =~= label_or_id(dl, device_id@) + " "@ + attribute@ + " "@ + op_label(op@) + " "@ + match value@.get("value"@) {
            Some(x) => short_text(x),
            None => "?"@,
        });
    } else if str_eq(t.as_str(), "mode_is") {
        let mode_id = str_field_or(value, "mode_id", "mode");
        let label = lookup_label(mode_labels, mode_id.as_str());
        let on = bool_field(value, "on");
        push_str(&mut out, label.as_str());
        push_str(&mut out, " is ");
        if on == Some(true) {
            push_str(&mut out, "on");
        } else {
            push_str(&mut out, "off");
        }
        assert(out@ =~= label_or_id(ml, mode_id@) + " is "@ + (if bool_at(value@, "on"@) == Some(true) { "on"@ } else { "off"@ }));
    } else if str_eq(t.as_str(), "and") || str_eq(t.as_str(), "or") || str_eq(t.as_str(), "xor") {
        let joiner = if str_eq(t.as_str(), "and") {
            " and "
        } else if str_eq(t.as_str(), "or") {
            " or "
        } else {
            " xor "
        };
        let k = match json_get_index(value, "conditions") {
            Some(k) => k,
            None => {
                return compact_json(value);
            },
        };
        let items = match &entries[k].1 {
            Json::Array(items) => items,
            _ => {
                return compact_json(value);
            },
        };
        proof {
            lemma_jv_items(*items, items.len() as nat);
        }
        let ghost iv = jv_items(*items, items.len() as nat);
        assert(value@ is Obj);
        assert(value@->Obj_0[k as int].1 == JsonV::Arr(iv));
        if items.len() == 0 {
            return owned("No criteria");
        }
        let mut i: usize = 0;
        while i < items.len()
            invariant
                *value == Json::Object(*entries),
                k < entries.len(),
                entries[k as int].1 == Json::Array(*items),
                i <= items.len(),
                iv == jv_items(*items, items.len() as nat),
                iv.len() == items.len(),
                forall|q: int| 0 <= q < items.len() ==> #[trigger] iv[q] == jv(items[q]),
                dl == labels_view(device_labels@),
                ml == labels_view(mode_labels@),
                joiner@ == joiner_for(t@),
                out@ == summaries_joined(iv, i as nat, joiner_for(t@), dl, ml),
            decreases items.len() - i,
        {
            proof {
                vstd::std_specs::vec::axiom_vec_index_decreases(*entries, k as int);
                vstd::std_specs::vec::axiom_vec_index_decreases(*items, i as int);
                assert(decreases_to!(*value => (*value)->Object_0));
                assert(decreases_to!(entries[k as int] => entries[k as int].1));
                assert(decreases_to!(entries[k as int].1 => (entries[k as int].1)->Array_0));
            }
            if i > 0 {
                push_str(&mut out, joiner);
            }
            let part = condition_summary(&items[i], device_labels, mode_labels);
            push_str(&mut out, part.as_str());
            proof {
                if i == 0 {
                    assert(out@ =~= summaries_joined(iv, 1, joiner_for(t@), dl, ml));
                } else {
                    assert(out@ =~= summaries_joined(iv, (i + 1) as nat, joiner_for(t@), dl, ml));
                }
            }
            i = i + 1;
        }
    } else if str_eq(t.as_str(), "not") {
        let k = match json_get_index(value, "condition") {
            Some(k) => k,
            None => {
                return compact_json(value);
            },
        };
        proof {
            vstd::std_specs::vec::axiom_vec_index_decreases(*entries, k as int);
            assert(decreases_to!(*value => (*value)->Object_0));
            assert(decreases_to!(entries[k as int] => entries[k as int].1));
        }
        let inner = condition_summary(&entries[k].1, device_labels, mode_labels);
        push_str(&mut out, "not (");
        push_str(&mut out, inner.as_str());
        push_str(&mut out, ")");
        assert(value@ is Obj);
        assert(out@ =~= "not ("@ + summary(value@->Obj_0[k as int].1, dl, ml) + ")"@);
    } else if str_eq(t.as_str(), "time_window") {
        let start = str_field_or(value, "start", "?");
        let end = str_field_or(value, "end", "?");
        push_str(&mut out, "time between ");
        push_str(&mut out, start.as_str());
        push_str(&mut out, " and ");
        push_str(&mut out, end.as_str());
        assert(out@ =~= "time between "@ + start@ + " and "@ + end@);
    } else if str_eq(t.as_str(), "hub_variable") {
        let name = str_field_or(value, "name", "variable");
        let op = str_field_or(value, "op", "eq");
        push_str(&mut out, name.as_str());
        push_str(&mut out, " ");
        push_str(&mut out, compare_op_label(op.as_str()));
        push_str(&mut out, " ");
        push_rendered_value(&mut out, value);
        assert(out@ =~= name@ + " "@ + op_label(op@) + " "@ + match value@.get("value"@) {
            Some(x) => short_text(x),
            None => "?"@,
        });
    } else {
        return compact_json(value);
    }
    string_of(&out)
}

/// How many rules a criteria definition generated, in words.
pub open spec fn generated_summary_text(count: nat) -> Seq<char> {
    if count == 0 {
        "No generated rules"@
    } else if count == 1 {
        "1 generated rule"@
    } else {
        crate::text::nat_decimal(count) + " generated rules"@
    }
}

pub fn criteria_generated_summary(generated_rule_count: usize) -> (r: String)
    ensures
        r@ == generated_summary_text(generated_rule_count as nat),
{
    if generated_rule_count == 0 {
        owned("No generated rules")
    } else if generated_rule_count == 1 {
        owned("1 generated rule")
    } else {
        let mut out = crate::text::u64_decimal(generated_rule_count as u64);
        push_str(&mut out, " generated rules");
        string_of(&out)
    }
}

} // verus!
