//! How the activity timeline shows its entries: event type labels and
//! options, device names in log lines, and the time column.
use vstd::prelude::*;
use crate::text::{owned, chars_of, string_of, push_str, push_chars, strings_view, contains, contains_sub};
use crate::mode_list::Moment;
use crate::glue::{utf8_len, utf8_width};
use crate::rules::strictly_sorted;

verus! {

// ── Type labels ──────────────────────────────────────────────────────────────
/// `s` with every `from` replaced by `to`.
pub open spec fn replace_char(s: Seq<char>, from: char, to: char) -> Seq<char> {
    Seq::new(s.len(), |i: int| if s[i] == from { to } else { s[i] })
}

/// An event type as a label: underscores become spaces.
pub fn kind_label(kind: &str) -> (r: String)
    ensures
        r@ == replace_char(kind@, '_', ' '),
{
    let cs = chars_of(kind);
    let mut out: Vec<char> = Vec::new();
    let mut i: usize = 0;
    while i < cs.len()
        invariant
            i <= cs.len(),
            out@ == replace_char(cs@, '_', ' ').take(i as int),
        decreases cs.len() - i,
    {
        out.push(if cs[i] == '_' { ' ' } else { cs[i] });
        assert(out@ =~= replace_char(cs@, '_', ' ').take(i + 1));
        i = i + 1;
    }
    assert(replace_char(cs@, '_', ' ').take(cs.len() as int) =~= replace_char(cs@, '_', ' '));
    string_of(&out)
}

/// The first texts of a list of pairs.
pub open spec fn firsts(v: Seq<(String, String)>) -> Seq<Seq<char>> {
    Seq::new(v.len(), |i: int| v[i].0@)
}

/// The type picker's options: each event type once, in text order, with its
/// label.
pub fn type_options(kinds: &Vec<String>) -> (r: Vec<(String, String)>)
    ensures
        strictly_sorted(firsts(r@)),
        forall|t: Seq<char>| #[trigger] firsts(r@).contains(t) <==> strings_view(kinds@).contains(t),
        forall|i: int| 0 <= i < r@.len() ==> (#[trigger] r@[i]).1@ == replace_char(r@[i].0@, '_', ' '),
{
    let ds = crate::devices::distinct_sorted(kinds);
    let mut out: Vec<(String, String)> = Vec::new();
    let mut i: usize = 0;
    while i < ds.len()
        invariant
            i <= ds.len(),
            out@.len() == i,
            forall|k: int| 0 <= k < i ==> (#[trigger] out@[k]).0@ == ds@[k]@ && out@[k].1@ == replace_char(
                ds@[k]@,
                '_',
                ' ',
            ),
        decreases ds.len() - i,
    {
        out.push((owned(ds[i].as_str()), kind_label(ds[i].as_str())));
        i = i + 1;
    }
    assert(firsts(out@) =~= strings_view(ds@));
    out
}

// ── Device names in log lines ────────────────────────────────────────────────
/// `s.replace(pat, rep)`: every non-overlapping occurrence of a non-empty
/// `pat`, from the left, becomes `rep`.
pub open spec fn replace_all(s: Seq<char>, pat: Seq<char>, rep: Seq<char>) -> Seq<char>
    decreases s.len(),
{
    if pat.len() == 0 || s.len() < pat.len() {
        s
    } else if s.take(pat.len() as int) == pat {
        rep + replace_all(s.skip(pat.len() as int), pat, rep)
    } else {
        seq![s[0]] + replace_all(s.drop_first(), pat, rep)
    }
}

fn prefix_at(s: &Vec<char>, i: usize, pat: &Vec<char>) -> (r: bool)
    requires
        i <= s.len(),
    ensures
        r == (pat@.len() <= s@.len() - i && s@.skip(i as int).take(pat@.len() as int) == pat@),
{
    if pat.len() > s.len() - i {
        return false;
    }
    let mut k: usize = 0;
    while k < pat.len()
        invariant
            k <= pat.len(),
            pat.len() <= s.len() - i,
            forall|j: int| 0 <= j < k ==> s@[i + j] == pat@[j],
        decreases pat.len() - k,
    {
        if s[i + k] != pat[k] {
            assert(s@.skip(i as int).take(pat@.len() as int)[k as int] != pat@[k as int]);
            return false;
        }
        k = k + 1;
    }
    assert(s@.skip(i as int).take(pat@.len() as int) =~= pat@);
    true
}

/// Replaces every occurrence of a non-empty text (see `replace_all`).
pub fn replace_text(s: &str, pat: &str, rep: &str) -> (r: String)
    requires
        pat@.len() > 0,
    ensures
        r@ == replace_all(s@, pat@, rep@),
{
    let cs = chars_of(s);
    let pc = chars_of(pat);
    let mut out: Vec<char> = Vec::new();
    let mut i: usize = 0;
    assert(cs@.skip(0) =~= cs@);
    while i < cs.len()
        invariant
            i <= cs.len(),
            pc@ == pat@,
            pc@.len() > 0,
            out@ + replace_all(cs@.skip(i as int), pc@, rep@) == replace_all(cs@, pc@, rep@),
        decreases cs.len() - i,
    {
        let ghost rest = cs@.skip(i as int);
        if prefix_at(&cs, i, &pc) {
            let ghost before = out@;
            push_str(&mut out, rep);
            proof {
                assert(rest.skip(pc@.len() as int) =~= cs@.skip(i + pc@.len()));
            }
            i = i + pc.len();
            assert(before + replace_all(rest, pc@, rep@) == before + (rep@ + replace_all(cs@.skip(i as int), pc@, rep@)));
            assert(out@ + replace_all(cs@.skip(i as int), pc@, rep@) =~= before + (rep@ + replace_all(cs@.skip(i as int), pc@, rep@)));
        } else {
            let ghost before = out@;
            out.push(cs[i]);
            proof {
                assert(rest.drop_first() =~= cs@.skip(i + 1));
                assert(rest[0] == cs@[i as int]);
                if rest.len() < pc@.len() {
                    // The rest is too short to hold the pattern: it stays as it is.
                    assert(replace_all(rest, pc@, rep@) == rest);
                    assert(rest =~= seq![rest[0]] + rest.drop_first());
                    lemma_short_unchanged(rest.drop_first(), pc@, rep@);
                }
            }
            i = i + 1;
            assert(out@ + replace_all(cs@.skip(i as int), pc@, rep@) =~= before + (seq![cs@[i - 1]] + replace_all(cs@.skip(i as int), pc@, rep@)));
        }
    }
    assert(cs@.skip(cs.len() as int) =~= Seq::<char>::empty());
    assert(out@ =~= replace_all(cs@, pc@, rep@));
    string_of(&out)
}

proof fn lemma_short_unchanged(s: Seq<char>, pat: Seq<char>, rep: Seq<char>)
    requires
        s.len() < pat.len(),
    ensures
        replace_all(s, pat, rep) == s,
{
}

/// A log line with device ids replaced by names: each `(id, name)` in turn,
/// where the line holds the id.
pub open spec fn with_names(s: Seq<char>, names: Seq<(Seq<char>, Seq<char>)>) -> Seq<char>
    decreases names.len(),
{
    if names.len() == 0 {
        s
    } else {
        let prev = with_names(s, names.drop_last());
        let (id, name) = names.last();
        if id.len() > 0 && contains_sub(prev, id) {
            replace_all(prev, id, name)
        } else {
            prev
        }
    }
}

/// A log entry's summary with the ids of known devices shown as their
/// names; ids are replaced in the order the devices are given, and an
/// empty id is skipped.
pub fn log_summary_with_names(summary: &str, devices: &Vec<(String, String)>) -> (r: String)
    ensures
        r@ == with_names(summary@, crate::modes::labels_view(devices@)),
{
    let ghost nv = crate::modes::labels_view(devices@);
    let mut s = owned(summary);
    let mut i: usize = 0;
    while i < devices.len()
        invariant
            i <= devices.len(),
            nv == crate::modes::labels_view(devices@),
            s@ == with_names(summary@, nv.take(i as int)),
        decreases devices.len() - i,
    {
        proof {
            assert(nv.take(i + 1).drop_last() =~= nv.take(i as int));
            assert(nv.take(i + 1).last() == nv[i as int]);
        }
        let id = devices[i].0.as_str();
        if id.unicode_len() > 0 {
            let sc = chars_of(s.as_str());
            let ic = chars_of(id);
            if contains(&sc, &ic) {
                s = replace_text(s.as_str(), id, devices[i].1.as_str());
            }
        }
        i = i + 1;
    }
    assert(nv.take(devices.len() as int) =~= nv);
    s
}

// ── The time column ──────────────────────────────────────────────────────────
/// The first `T` in a text.
pub open spec fn first_t(s: Seq<char>) -> Option<int>
    decreases s.len(),
{
    if s.len() == 0 {
        None
    } else {
        match first_t(s.drop_last()) {
            Some(p) => Some(p),
            None => if s.last() == 'T' {
                Some(s.len() - 1)
            } else {
                None
            },
        }
    }
}

/// The first eight bytes of a text, where eight bytes end on a character
/// boundary (`str::get(..8)`); else the whole text.
pub open spec fn first_8_bytes(s: Seq<char>) -> Seq<char> {
    if exists|k: int| 0 <= k <= s.len() && #[trigger] utf8_len(s.take(k)) == 8 {
        s.take(choose|k: int| 0 <= k <= s.len() && #[trigger] utf8_len(s.take(k)) == 8)
    } else {
        s
    }
}

/// The time column for a timestamp that is not RFC 3339: what follows the
/// first `T`, cut to eight bytes; the whole text when it has no `T`.
pub open spec fn time_fallback_of(ts: Seq<char>) -> Seq<char> {
    match first_t(ts) {
        Some(p) => first_8_bytes(ts.skip(p + 1)),
        None => ts,
    }
}

proof fn lemma_utf8_step(v: Seq<char>, k: int)
    requires
        0 <= k < v.len(),
    ensures
        utf8_len(v.take(k + 1)) == utf8_len(v.take(k)) + utf8_width(v[k]),
{
    assert(v.take(k + 1).drop_last() =~= v.take(k));
}

proof fn lemma_utf8_mono(v: Seq<char>, a: int, b: int)
    requires
        0 <= a < b <= v.len(),
    ensures
        utf8_len(v.take(a)) < utf8_len(v.take(b)),
    decreases b - a,
{
    lemma_utf8_step(v, b - 1);
    if a < b - 1 {
        lemma_utf8_mono(v, a, b - 1);
    }
}

fn first_8(v: &Vec<char>) -> (r: Vec<char>)
    ensures
        r@ == first_8_bytes(v@),
{
    let mut i: usize = 0;
    let mut bytes: u64 = 0;
    assert(v@.take(0) =~= Seq::<char>::empty());
    while i < v.len() && bytes < 8
        invariant
            i <= v.len(),
            bytes == utf8_len(v@.take(i as int)),
            bytes <= 11,
            i > 0 ==> utf8_len(v@.take(i - 1)) < 8,
        decreases v.len() - i,
    {
        proof {
            lemma_utf8_step(v@, i as int);
        }
        let c = v[i];
        let n = c as u32;
        let w: u64 = if n < 0x80 {
            1
        } else if n < 0x800 {
            2
        } else if n < 0x10000 {
            3
        } else {
            4
        };
        bytes = bytes + w;
        i = i + 1;
    }
    let mut out: Vec<char> = Vec::new();
    if bytes == 8 {
        proof {
            assert(utf8_len(v@.take(i as int)) == 8);
        }
        let mut j: usize = 0;
        while j < i
            invariant
                j <= i <= v.len(),
                out@ == v@.take(j as int),
            decreases i - j,
        {
            out.push(v[j]);
            j = j + 1;
            assert(out@ =~= v@.take(j as int));
        }
        proof {
            let k = choose|k: int| 0 <= k <= v@.len() && #[trigger] utf8_len(v@.take(k)) == 8;
            if k < i {
                lemma_utf8_mono(v@, k, i as int);
            } else if k > i {
                lemma_utf8_mono(v@, i as int, k);
            }
        }
        return out;
    }
    proof {
        assert forall|k: int| 0 <= k <= v@.len() implies #[trigger] utf8_len(v@.take(k)) != 8 by {
            if bytes < 8 {
                // Every character was read.
                assert(i == v.len());
                if k < i {
                    lemma_utf8_mono(v@, k, i as int);
                }
            } else {
                lemma_utf8_step(v@, i - 1);
                if k < i - 1 {
                    lemma_utf8_mono(v@, k, i - 1);
                } else if k > i {
                    lemma_utf8_mono(v@, i as int, k);
                }
            }
        }
    }
    crate::text::push_chars(&mut out, v);
    assert(out@ =~= v@);
    out
}

/// The time column for a timestamp that chrono does not read as RFC 3339.
pub fn time_fallback(ts: &str) -> (r: String)
    ensures
        r@ == time_fallback_of(ts@),
{
    let cs = chars_of(ts);
    let mut i: usize = 0;
    while i < cs.len()
        invariant
            i <= cs.len(),
            cs@ == ts@,
            first_t(cs@.take(i as int)) is None,
        decreases cs.len() - i,
    {
        proof {
            assert(cs@.take(i + 1).drop_last() =~= cs@.take(i as int));
        }
        if cs[i] == 'T' {
            proof {
                assert(first_t(cs@.take(i + 1)) == Some(i as int));
                lemma_first_t_prefix(cs@, i as int);
            }
            let mut rest: Vec<char> = Vec::new();
            let mut j = i + 1;
            while j < cs.len()
                invariant
                    i + 1 <= j <= cs.len(),
                    rest@ == cs@.subrange(i + 1, j as int),
                decreases cs.len() - j,
            {
                rest.push(cs[j]);
                j = j + 1;
                assert(rest@ =~= cs@.subrange(i + 1, j as int));
            }
            assert(rest@ =~= cs@.skip(i + 1));
            let r = first_8(&rest);
            return string_of(&r);
        }
        i = i + 1;
    }
    assert(cs@.take(cs.len() as int) =~= cs@);
    owned(ts)
}

proof fn lemma_first_t_prefix(s: Seq<char>, n: int)
    requires
        0 <= n < s.len(),
        first_t(s.take(n + 1)) is Some,
    ensures
        first_t(s) == first_t(s.take(n + 1)),
    decreases s.len(),
{
    if s.len() > n + 1 {
        assert(s.drop_last().take(n + 1) =~= s.take(n + 1));
        lemma_first_t_prefix(s.drop_last(), n);
    } else {
        assert(s.take(n + 1) =~= s);
    }
}

/// The instant chrono reads from an RFC 3339 timestamp, or `None`.
pub uninterp spec fn rfc3339_instant(s: Seq<char>) -> Option<Moment>;

/// `chrono::DateTime::parse_from_rfc3339(ts)`, as the instant in UTC
/// (seconds and nanoseconds since the epoch), or `None` where chrono refuses
/// the text. The grammar it accepts is not restated.
#[verifier::external_body]
fn parse_rfc3339(ts: &str) -> (r: Option<Moment>)
    ensures
        r == rfc3339_instant(ts@),
{
    match chrono::DateTime::parse_from_rfc3339(ts) {
        Ok(dt) => Some(Moment { secs: dt.timestamp(), nanos: dt.timestamp_subsec_nanos() }),
        Err(_) => None,
    }
}

/// What the time column holds: the instant, for the caller's clock format,
/// where the timestamp is RFC 3339; else the text's time part.
pub enum EventTime {
    Instant(Moment),
    Text(String),
}

pub fn event_time(ts: &str) -> (r: EventTime)
    ensures
        match r {
            EventTime::Instant(m) => rfc3339_instant(ts@) == Some(m),
            EventTime::Text(t) => rfc3339_instant(ts@) is None && t@ == time_fallback_of(ts@),
        },
{
    match parse_rfc3339(ts) {
        Some(m) => EventTime::Instant(m),
        None => EventTime::Text(time_fallback(ts)),
    }
}

/// The Pause button: `Pause`, or `Resume (n)` with the buffered count.
pub fn pause_label(paused: bool, buffered: usize) -> (r: String)
    ensures
        r@ == if paused {
            "Resume ("@ + crate::text::nat_decimal(buffered as nat) + ")"@
        } else {
            "Pause"@
        },
{
    if paused {
        let mut out: Vec<char> = Vec::new();
        push_str(&mut out, "Resume (");
        let d = crate::text::u64_decimal(buffered as u64);
        push_chars(&mut out, &d);
        push_str(&mut out, ")");
        string_of(&out)
    } else {
        owned("Pause")
    }
}

/// Clicking an entry selects it, or clears the selection when it was the
/// selected one.
pub fn toggle_selected_entry(selected: &Option<String>, id: &str) -> (r: Option<String>)
    ensures
        crate::json::opt_view(r) == if crate::json::opt_view(*selected) == Some(id@) {
            None
        } else {
            Some(id@)
        },
{
    crate::rules::select_group(selected, id)
}

} // verus!
