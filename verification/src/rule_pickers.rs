//! The rule editor's pickers: the devices a trigger watches, the orphan
//! option for a value the lists do not know, the attribute list, and the
//! input a compared value gets.
use vstd::prelude::*;
use crate::text::{str_eq, owned, concat2, strings_view, list_has};
use crate::json::{Json, JsonV, compact, compact_json};
use crate::sort::{KeyPart, KeyPartV, key_view, keys_view, stable_sorted, sort_by_keys, lemma_sorted_map};
use crate::rule_editor::{bool_labels_of, bool_labels};

verus! {

// ── The watched devices ──────────────────────────────────────────────────────
/// The devices a state trigger watches: its extra devices with the main one
/// in front (where it is set and not among them), or just the main one.
pub open spec fn watched_of(main: Seq<char>, extra: Seq<Seq<char>>) -> Seq<Seq<char>> {
    if extra.len() == 0 {
        if main.len() == 0 {
            Seq::empty()
        } else {
            seq![main]
        }
    } else if main.len() > 0 && !extra.contains(main) {
        seq![main] + extra
    } else {
        extra
    }
}

pub fn watched_devices(main: &str, extra: &Vec<String>) -> (r: Vec<String>)
    ensures
        strings_view(r@) == watched_of(main@, strings_view(extra@)),
{
    let mut out: Vec<String> = Vec::new();
    if extra.len() == 0 {
        if main.unicode_len() > 0 {
            out.push(owned(main));
        }
        assert(strings_view(out@) =~= watched_of(main@, strings_view(extra@)));
        return out;
    }
    if main.unicode_len() > 0 && !list_has(extra, main) {
        out.push(owned(main));
    }
    let ghost start = out@;
    let mut i: usize = 0;
    while i < extra.len()
        invariant
            i <= extra.len(),
            strings_view(out@) == strings_view(start) + strings_view(extra@).take(i as int),
        decreases extra.len() - i,
    {
        let ghost before = out@;
        out.push(owned(extra[i].as_str()));
        assert(strings_view(out@) =~= strings_view(before).push(strings_view(extra@)[i as int]));
        assert(strings_view(extra@).take(i + 1) =~= strings_view(extra@).take(i as int).push(strings_view(extra@)[i as int]));
        i = i + 1;
    }
    assert(strings_view(extra@).take(extra.len() as int) =~= strings_view(extra@));
    assert(strings_view(out@) =~= watched_of(main@, strings_view(extra@)));
    out
}

/// How a list of watched devices is stored: one device as the main one and
/// no extras; several as the first and all of them.
pub open spec fn stored_of(ids: Seq<Seq<char>>) -> (Seq<char>, Seq<Seq<char>>) {
    if ids.len() <= 1 {
        (if ids.len() == 1 { ids[0] } else { Seq::empty() }, Seq::empty())
    } else {
        (ids[0], ids)
    }
}

pub fn store_devices(ids: &Vec<String>) -> (r: (String, Vec<String>))
    ensures
        (r.0@, strings_view(r.1@)) == stored_of(strings_view(ids@)),
{
    if ids.len() <= 1 {
        let main = if ids.len() == 1 {
            owned(ids[0].as_str())
        } else {
            let e: Vec<char> = Vec::new();
            let s = crate::text::string_of(&e);
            assert(s@ =~= Seq::<char>::empty());
            s
        };
        let none: Vec<String> = Vec::new();
        assert(strings_view(none@) =~= Seq::<Seq<char>>::empty());
        (main, none)
    } else {
        let mut all: Vec<String> = Vec::new();
        let mut i: usize = 0;
        while i < ids.len()
            invariant
                i <= ids.len(),
                strings_view(all@) == strings_view(ids@).take(i as int),
            decreases ids.len() - i,
        {
            let ghost before = all@;
            all.push(owned(ids[i].as_str()));
            assert(strings_view(all@) =~= strings_view(before).push(strings_view(ids@)[i as int]));
            assert(strings_view(ids@).take(i + 1) =~= strings_view(ids@).take(i as int).push(strings_view(ids@)[i as int]));
            i = i + 1;
        }
        assert(strings_view(ids@).take(ids.len() as int) =~= strings_view(ids@));
        (owned(ids[0].as_str()), all)
    }
}

/// Storing a list of watched devices and reading it back gives the list,
/// where a single device is named (an empty name alone reads back as none).
pub proof fn law_watched_roundtrip(ids: Seq<Seq<char>>)
    requires
        ids.len() == 1 ==> ids[0].len() > 0,
    ensures
        watched_of(stored_of(ids).0, stored_of(ids).1) == ids,
{
    if ids.len() == 0 {
        assert(ids =~= Seq::<Seq<char>>::empty());
    } else if ids.len() == 1 {
        assert(ids =~= seq![ids[0]]);
    } else {
        if ids[0].len() > 0 {
            assert(ids.contains(ids[0]));
        }
    }
}

/// Adding a device from the dropdown: a named device joins once.
pub open spec fn ids_after_add(ids: Seq<Seq<char>>, id: Seq<char>) -> Seq<Seq<char>> {
    if id.len() == 0 || ids.contains(id) {
        ids
    } else {
        ids.push(id)
    }
}

pub fn add_watched(ids: &mut Vec<String>, id: &str)
    ensures
        strings_view(final(ids)@) == ids_after_add(strings_view(old(ids)@), id@),
{
    if id.unicode_len() == 0 {
        return;
    }
    if !list_has(ids, id) {
        let ghost before = ids@;
        ids.push(owned(id));
        assert(strings_view(ids@) =~= strings_view(before).push(id@));
    }
}

// ── Orphan options ───────────────────────────────────────────────────────────
/// The extra option a picker shows for a chosen value it does not list.
pub open spec fn orphan_of(current: Seq<char>, known: Seq<Seq<char>>) -> Option<Seq<char>> {
    if current.len() > 0 && !known.contains(current) {
        Some(current + " (unknown)"@)
    } else {
        None
    }
}

pub fn orphan_option(current: &str, known: &Vec<String>) -> (r: Option<String>)
    ensures
        crate::json::opt_view(r) == orphan_of(current@, strings_view(known@)),
{
    if current.unicode_len() > 0 && !list_has(known, current) {
        Some(concat2(current, " (unknown)"))
    } else {
        None
    }
}

// ── The attribute list ───────────────────────────────────────────────────────
pub open spec fn text_keys(v: Seq<Seq<char>>) -> Seq<Seq<KeyPartV>> {
    v.map_values(|t: Seq<char>| seq![KeyPartV::Text(t)])
}

/// The names of an object's entries, in order.
pub open spec fn attr_names(v: JsonV) -> Seq<Seq<char>> {
    match v {
        JsonV::Obj(es) => es.map_values(|e: (Seq<char>, JsonV)| e.0),
        _ => Seq::empty(),
    }
}

/// A device's attribute names, in text order.
pub fn sorted_attribute_names(attrs: &Json) -> (r: Vec<String>)
    ensures
        exists|perm: Seq<int>|
            stable_sorted(attr_names(attrs@), text_keys(attr_names(attrs@)), false, strings_view(r@), perm),
{
    let mut names: Vec<String> = Vec::new();
    let mut keys: Vec<Vec<KeyPart>> = Vec::new();
    let ghost nv: Seq<Seq<char>> = attr_names(attrs@);
    match attrs {
        Json::Object(entries) => {
            proof {
                crate::json::lemma_jv_entries(*entries, entries.len() as nat);
            }
            let ghost es = crate::json::jv_entries(*entries, entries.len() as nat);
            let mut i: usize = 0;
            while i < entries.len()
                invariant
                    i <= entries.len(),
                    es == crate::json::jv_entries(*entries, entries.len() as nat),
                    es.len() == entries.len(),
                    forall|k: int| 0 <= k < entries.len() ==> #[trigger] es[k] == (entries[k].0@, crate::json::jv(entries[k].1)),
                    names.len() == i,
                    keys.len() == i,
                    strings_view(names@) == es.take(i as int).map_values(|e: (Seq<char>, JsonV)| e.0),
                    keys_view(keys@) == text_keys(strings_view(names@)),
                decreases entries.len() - i,
            {
                let ghost b_names = names@;
                let ghost b_keys = keys@;
                names.push(owned(entries[i].0.as_str()));
                let mut k: Vec<KeyPart> = Vec::new();
                k.push(KeyPart::Text(owned(entries[i].0.as_str())));
                assert(key_view(k@) =~= seq![KeyPartV::Text(es[i as int].0)]);
                keys.push(k);
                proof {
                    assert(strings_view(names@) =~= strings_view(b_names).push(es[i as int].0));
                    assert(es.take(i + 1).map_values(|e: (Seq<char>, JsonV)| e.0) =~= es.take(i as int).map_values(
                        |e: (Seq<char>, JsonV)| e.0,
                    ).push(es[i as int].0));
                    assert(keys_view(keys@) =~= keys_view(b_keys).push(seq![KeyPartV::Text(es[i as int].0)]));
                    assert(text_keys(strings_view(names@)) =~= text_keys(strings_view(b_names)).push(
                        seq![KeyPartV::Text(es[i as int].0)],
                    ));
                }
                i = i + 1;
            }
            proof {
                assert(es.take(entries.len() as int) =~= es);
            }
        },
        _ => {},
    }
    assert(strings_view(names@) == nv);
    let ghost n0 = names@;
    let ghost k0 = keys_view(keys@);
    let sorted = sort_by_keys(names, keys, false);
    proof {
        let perm = choose|perm: Seq<int>| stable_sorted(n0, k0, false, sorted@, perm);
        lemma_sorted_map(n0, k0, false, sorted@, perm, |s: String| s@);
        assert(n0.map_values(|s: String| s@) =~= strings_view(n0));
        assert(sorted@.map_values(|s: String| s@) =~= strings_view(sorted@));
        assert(stable_sorted(nv, text_keys(nv), false, strings_view(sorted@), perm));
    }
    sorted
}

// ── The compared value's input ───────────────────────────────────────────────
/// The input a trigger's compared value gets, by the attribute's type.
pub enum ValueInput {
    /// A true/false picker with the attribute's words, and the current
    /// choice (`""`, `true` or `false`).
    Boolean { true_label: &'static str, false_label: &'static str, current: &'static str },
    /// A number box with the current value's text.
    Number { text: String },
    /// A text box with the current string.
    Text { text: String },
    /// A free text box, for attributes of no known type.
    Other { text: String },
}

/// Attributes known to be true/false.
pub open spec fn bool_attribute(a: Seq<char>) -> bool {
    a == "on"@ || a == "open"@ || a == "locked"@ || a == "muted"@ || a == "shuffle"@ || a == "loudness"@
        || a == "motion"@ || a == "occupied"@ || a == "leak"@ || a == "vibration"@ || a == "available"@
}

fn is_bool_attribute(a: &str) -> (r: bool)
    ensures
        r == bool_attribute(a@),
{
    str_eq(a, "on") || str_eq(a, "open") || str_eq(a, "locked") || str_eq(a, "muted") || str_eq(a, "shuffle")
        || str_eq(a, "loudness") || str_eq(a, "motion") || str_eq(a, "occupied") || str_eq(a, "leak") || str_eq(
        a,
        "vibration",
    ) || str_eq(a, "available")
}

/// The value's text as the boxes show it: nothing for null, else JSON.
pub open spec fn value_text(v: JsonV) -> Seq<char> {
    if v == JsonV::Null {
        Seq::empty()
    } else {
        compact(v)
    }
}

/// Which input the value gets: a picker for true/false attributes (or for a
/// true/false value with no attribute chosen), a number box, a text box, or
/// a free box. `current` is the device's value of the attribute, if known.
pub open spec fn value_input_kind(attribute: Seq<char>, current: Option<JsonV>, value: JsonV) -> nat {
    let is_bool = (current matches Some(JsonV::Bool(_))) || bool_attribute(attribute);
    if is_bool || (attribute.len() == 0 && value is Bool) {
        0
    } else if current matches Some(JsonV::Num(_)) {
        1
    } else if current matches Some(JsonV::Str(_)) {
        2
    } else {
        3
    }
}

fn empty_string() -> (r: String)
    ensures
        r@ == Seq::<char>::empty(),
{
    let e: Vec<char> = Vec::new();
    let r = crate::text::string_of(&e);
    assert(r@ =~= Seq::<char>::empty());
    r
}

fn value_text_of(v: &Json) -> (r: String)
    ensures
        r@ == value_text(v@),
{
    match v {
        Json::Null => empty_string(),
        _ => compact_json(v),
    }
}

pub fn value_input(attribute: &str, current: Option<&Json>, value: &Json) -> (r: ValueInput)
    ensures
        ({
            let cur = match current {
                Some(c) => Some(c@),
                None => None,
            };
            match r {
                ValueInput::Boolean { true_label, false_label, current: choice } => value_input_kind(attribute@, cur, value@)
                    == 0 && (true_label@, false_label@) == bool_labels_of(
                    if attribute@.len() == 0 {
                        "on"@
                    } else {
                        attribute@
                    },
                ) && choice@ == (if value@ == JsonV::Null {
                    ""@
                } else if value@ == JsonV::Bool(true) {
                    "true"@
                } else {
                    "false"@
                }),
                ValueInput::Number { text } => value_input_kind(attribute@, cur, value@) == 1 && text@ == value_text(value@),
                ValueInput::Text { text } => value_input_kind(attribute@, cur, value@) == 2 && text@ == (if value@ == JsonV::Null {
                    Seq::<char>::empty()
                } else {
                    match value@ {
                        JsonV::Str(s) => s,
                        _ => Seq::<char>::empty(),
                    }
                }),
                ValueInput::Other { text } => value_input_kind(attribute@, cur, value@) == 3 && text@ == value_text(value@),
            }
        }),
{
    let cur_bool = match current {
        Some(Json::Bool(_)) => true,
        _ => false,
    };
    let is_bool = cur_bool || is_bool_attribute(attribute);
    let value_is_bool = match value {
        Json::Bool(_) => true,
        _ => false,
    };
    if is_bool || (attribute.unicode_len() == 0 && value_is_bool) {
        let labels = if attribute.unicode_len() == 0 {
            bool_labels("on")
        } else {
            bool_labels(attribute)
        };
        let choice = match value {
            Json::Null => "",
            Json::Bool(true) => "true",
            _ => "false",
        };
        return ValueInput::Boolean { true_label: labels.0, false_label: labels.1, current: choice };
    }
    match current {
        Some(Json::Number(_)) => ValueInput::Number { text: value_text_of(value) },
        Some(Json::Str(_)) => ValueInput::Text {
            text: match value {
                Json::Str(s) => owned(s.as_str()),
                _ => empty_string(),
            },
        },
        _ => ValueInput::Other { text: value_text_of(value) },
    }
}

// ── Device and rule pickers ──────────────────────────────────────────────────
/// The device picker lists devices that are not scenes: `(id, name)`.
pub open spec fn device_choices(devices: Seq<(Seq<char>, Seq<char>, bool)>) -> Seq<(Seq<char>, Seq<char>)> {
    devices.filter(|d: (Seq<char>, Seq<char>, bool)| !d.2).map_values(
        |d: (Seq<char>, Seq<char>, bool)| (d.0, d.1),
    )
}

pub open spec fn triples_view(v: Seq<(String, String, bool)>) -> Seq<(Seq<char>, Seq<char>, bool)> {
    Seq::new(v.len(), |i: int| (v[i].0@, v[i].1@, v[i].2))
}

/// The device picker's options, by lower-cased name. Each device is
/// `(id, name, is a scene)`.
pub fn device_select_options(devices: &Vec<(String, String, bool)>) -> (r: Vec<(String, String)>)
    ensures
        exists|perm: Seq<int>|
            stable_sorted(
                device_choices(triples_view(devices@)),
                crate::plugins::option_keys(device_choices(triples_view(devices@))),
                false,
                crate::plugins::pairs_view(r@),
                perm,
            ),
{
    let ghost dv = triples_view(devices@);
    let ghost pred = |d: (Seq<char>, Seq<char>, bool)| !d.2;
    let ghost f = |d: (Seq<char>, Seq<char>, bool)| (d.0, d.1);
    let mut out: Vec<(String, String)> = Vec::new();
    let mut i: usize = 0;
    while i < devices.len()
        invariant
            i <= devices.len(),
            dv == triples_view(devices@),
            pred == (|d: (Seq<char>, Seq<char>, bool)| !d.2),
            f == (|d: (Seq<char>, Seq<char>, bool)| (d.0, d.1)),
            crate::plugins::pairs_view(out@) == dv.take(i as int).filter(pred).map_values(f),
        decreases devices.len() - i,
    {
        proof {
            assert(dv.take(i + 1).drop_last() =~= dv.take(i as int));
            reveal_with_fuel(Seq::filter, 1);
        }
        if !devices[i].2 {
            let ghost before = out@;
            out.push((owned(devices[i].0.as_str()), owned(devices[i].1.as_str())));
            assert(crate::plugins::pairs_view(out@) =~= crate::plugins::pairs_view(before).push(f(dv[i as int])));
            assert(dv.take(i + 1).filter(pred) =~= dv.take(i as int).filter(pred).push(dv[i as int]));
            assert(dv.take(i + 1).filter(pred).map_values(f) =~= dv.take(i as int).filter(pred).map_values(f).push(
                f(dv[i as int]),
            ));
        }
        i = i + 1;
    }
    assert(dv.take(devices.len() as int) =~= dv);
    assert(device_choices(dv) == dv.filter(pred).map_values(f));
    crate::plugins::sort_options_by_label(out)
}

/// A rule's name in the rule picker: `(unnamed)` for an empty one.
pub fn rule_choice_label(name: &str) -> (r: String)
    ensures
        r@ == if name@.len() == 0 {
            "(unnamed)"@
        } else {
            name@
        },
{
    if name.unicode_len() == 0 {
        owned("(unnamed)")
    } else {
        owned(name)
    }
}

} // verus!
