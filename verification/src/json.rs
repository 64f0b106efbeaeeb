//! JSON values as the pages receive them from the homeCore API and event
//! streams, and as they send them back.
//!
//! `Json` holds what a `serde_json::Value` holds: numbers keep the three
//! forms serde_json keeps apart (non-negative integer, negative integer,
//! float); a float is held as the text serde_json writes for it. Objects
//! keep their entries in order; a lookup takes the first entry with the
//! key, which for a map with unique keys is the entry.
use vstd::prelude::*;
use serde_json::{Number, Value};
use crate::text::{int_decimal, nat_decimal, str_eq, owned, u64_decimal, i64_decimal};

verus! {

/// The mathematical model of a JSON number.
pub enum NumV {
    PosInt(nat),
    NegInt(int),
    Float(Seq<char>),
}

/// The mathematical model of a JSON value.
pub enum JsonV {
    Null,
    Bool(bool),
    Num(NumV),
    Str(Seq<char>),
    Arr(Seq<JsonV>),
    Obj(Seq<(Seq<char>, JsonV)>),
}

#[derive(Clone, Debug, PartialEq)]
pub enum JsonNumber {
    /// A non-negative integer.
    PosInt(u64),
    /// A negative integer.
    NegInt(i64),
    /// A finite float, held as the text serde_json writes for it.
    Float(String),
}

#[derive(Debug)]
pub enum Json {
    Null,
    Bool(bool),
    Number(JsonNumber),
    Str(String),
    Array(Vec<Json>),
    Object(Vec<(String, Json)>),
}

impl View for JsonNumber {
    type V = NumV;

    open spec fn view(&self) -> NumV {
        match self {
            JsonNumber::PosInt(n) => NumV::PosInt(*n as nat),
            JsonNumber::NegInt(n) => NumV::NegInt(*n as int),
            JsonNumber::Float(t) => NumV::Float(t@),
        }
    }
}

/// The model of a value.
pub open spec fn jv(j: Json) -> JsonV
    decreases j, 0nat,
{
    match j {
        Json::Null => JsonV::Null,
        Json::Bool(b) => JsonV::Bool(b),
        Json::Number(n) => JsonV::Num(n@),
        Json::Str(s) => JsonV::Str(s@),
        Json::Array(items) => JsonV::Arr(jv_items(items, items.len() as nat)),
        Json::Object(entries) => JsonV::Obj(jv_entries(entries, entries.len() as nat)),
    }
}

/// The models of the first `n` items.
pub open spec fn jv_items(items: Vec<Json>, n: nat) -> Seq<JsonV>
    decreases items, n,
{
    if n == 0 || n > items.len() {
        Seq::empty()
    } else {
        jv_items(items, (n - 1) as nat).push(jv(items[n - 1]))
    }
}

/// The models of the first `n` entries.
pub open spec fn jv_entries(entries: Vec<(String, Json)>, n: nat) -> Seq<(Seq<char>, JsonV)>
    decreases entries, n,
{
    if n == 0 || n > entries.len() {
        Seq::empty()
    } else {
        jv_entries(entries, (n - 1) as nat).push((entries[n - 1].0@, jv(entries[n - 1].1)))
    }
}

impl View for Json {
    type V = JsonV;

    open spec fn view(&self) -> JsonV {
        jv(*self)
    }
}

pub proof fn lemma_jv_items(items: Vec<Json>, n: nat)
    requires
        n <= items.len(),
    ensures
        jv_items(items, n).len() == n,
        forall|i: int| 0 <= i < n ==> #[trigger] jv_items(items, n)[i] == jv(items[i]),
    decreases n,
{
    if n > 0 {
        lemma_jv_items(items, (n - 1) as nat);
    }
}

pub proof fn lemma_jv_entries(entries: Vec<(String, Json)>, n: nat)
    requires
        n <= entries.len(),
    ensures
        jv_entries(entries, n).len() == n,
        forall|i: int|
            0 <= i < n ==> #[trigger] jv_entries(entries, n)[i] == (
                entries[i].0@,
                jv(entries[i].1),
            ),
    decreases n,
{
    if n > 0 {
        lemma_jv_entries(entries, (n - 1) as nat);
    }
}

/// The first entry whose key is `key`, scanning from index `i`.
pub open spec fn entries_get_from(es: Seq<(Seq<char>, JsonV)>, key: Seq<char>, i: int) -> Option<
    JsonV,
>
    decreases es.len() - i,
{
    if i < 0 || i >= es.len() {
        None
    } else if es[i].0 == key {
        Some(es[i].1)
    } else {
        entries_get_from(es, key, i + 1)
    }
}

impl JsonV {
    /// `value.get(key)`: the value under `key` when this is an object that has it.
    pub open spec fn get(self, key: Seq<char>) -> Option<JsonV> {
        match self {
            JsonV::Obj(es) => entries_get_from(es, key, 0),
            _ => None,
        }
    }

    /// `value[key]`: like `get`, with `Null` where there is nothing.
    pub open spec fn at(self, key: Seq<char>) -> JsonV {
        match self.get(key) {
            Some(v) => v,
            None => JsonV::Null,
        }
    }

    pub open spec fn as_str(self) -> Option<Seq<char>> {
        match self {
            JsonV::Str(s) => Some(s),
            _ => None,
        }
    }

    pub open spec fn as_bool(self) -> Option<bool> {
        match self {
            JsonV::Bool(b) => Some(b),
            _ => None,
        }
    }

    /// `Value::as_u64`: integers that fit in a `u64`.
    pub open spec fn as_u64(self) -> Option<nat> {
        match self {
            JsonV::Num(NumV::PosInt(n)) => Some(n),
            _ => None,
        }
    }

    /// `Value::as_i64`: integers that fit in an `i64`.
    pub open spec fn as_i64(self) -> Option<int> {
        match self {
            JsonV::Num(NumV::PosInt(n)) => if n <= i64::MAX {
                Some(n as int)
            } else {
                None
            },
            JsonV::Num(NumV::NegInt(n)) => Some(n),
            _ => None,
        }
    }

    pub open spec fn as_array(self) -> Option<Seq<JsonV>> {
        match self {
            JsonV::Arr(items) => Some(items),
            _ => None,
        }
    }

    pub open spec fn is_object(self) -> bool {
        self is Obj
    }
}

/// `obj[key].as_str()`.
pub open spec fn str_at(v: JsonV, key: Seq<char>) -> Option<Seq<char>> {
    v.at(key).as_str()
}

/// `obj[key].as_str().unwrap_or(default)`.
pub open spec fn str_at_or(v: JsonV, key: Seq<char>, default: Seq<char>) -> Seq<char> {
    match str_at(v, key) {
        Some(s) => s,
        None => default,
    }
}

pub open spec fn bool_at(v: JsonV, key: Seq<char>) -> Option<bool> {
    v.at(key).as_bool()
}

pub open spec fn u64_at(v: JsonV, key: Seq<char>) -> Option<nat> {
    v.at(key).as_u64()
}

pub open spec fn i64_at(v: JsonV, key: Seq<char>) -> Option<int> {
    v.at(key).as_i64()
}


/// The view of an optional string.
pub open spec fn opt_view(o: Option<String>) -> Option<Seq<char>> {
    match o {
        Some(s) => Some(s@),
        None => None,
    }
}

/// `value.get(key)` on an object.
pub fn json_get<'a>(j: &'a Json, key: &str) -> (r: Option<&'a Json>)
    ensures
        match r {
            Some(x) => j@.get(key@) == Some(x@),
            None => j@.get(key@) is None,
        },
{
    match j {
        Json::Object(entries) => {
            proof {
                lemma_jv_entries(*entries, entries.len() as nat);
            }
            let ghost es = jv_entries(*entries, entries.len() as nat);
            let mut i: usize = 0;
            while i < entries.len()
                invariant
                    *j == Json::Object(*entries),
                    i <= entries.len(),
                    es == jv_entries(*entries, entries.len() as nat),
                    es.len() == entries.len(),
                    forall|k: int| 0 <= k < entries.len() ==> #[trigger] es[k] == (entries[k].0@, jv(entries[k].1)),
                    entries_get_from(es, key@, 0) == entries_get_from(es, key@, i as int),
                decreases entries.len() - i,
            {
                if str_eq(entries[i].0.as_str(), key) {
                    assert(j@ == JsonV::Obj(es));
                    assert(es[i as int].0 == key@);
                    return Some(&entries[i].1);
                }
                i = i + 1;
            }
            assert(j@ == JsonV::Obj(es));
            None
        },
        _ => None,
    }
}

/// `value.as_str()`, owned.
pub fn json_as_str(j: &Json) -> (r: Option<String>)
    ensures
        opt_view(r) == j@.as_str(),
{
    match j {
        Json::Str(s) => Some(owned(s.as_str())),
        _ => None,
    }
}

pub fn json_as_bool(j: &Json) -> (r: Option<bool>)
    ensures
        r == j@.as_bool(),
{
    match j {
        Json::Bool(b) => Some(*b),
        _ => None,
    }
}

pub fn json_as_u64(j: &Json) -> (r: Option<u64>)
    ensures
        match r {
            Some(n) => j@.as_u64() == Some(n as nat),
            None => j@.as_u64() is None,
        },
{
    match j {
        Json::Number(JsonNumber::PosInt(n)) => Some(*n),
        _ => None,
    }
}

pub fn json_as_i64(j: &Json) -> (r: Option<i64>)
    ensures
        match r {
            Some(n) => j@.as_i64() == Some(n as int),
            None => j@.as_i64() is None,
        },
{
    match j {
        Json::Number(JsonNumber::PosInt(n)) => if *n <= 9223372036854775807u64 {
            Some(*n as i64)
        } else {
            None
        },
        Json::Number(JsonNumber::NegInt(n)) => Some(*n),
        _ => None,
    }
}

/// `value[key].as_str()`, owned.
pub fn str_field(j: &Json, key: &str) -> (r: Option<String>)
    ensures
        opt_view(r) == str_at(j@, key@),
{
    match json_get(j, key) {
        Some(v) => json_as_str(v),
        None => None,
    }
}

/// `value[key].as_str().unwrap_or(default)`, owned.
pub fn str_field_or(j: &Json, key: &str, default: &str) -> (r: String)
    ensures
        r@ == str_at_or(j@, key@, default@),
{
    match str_field(j, key) {
        Some(s) => s,
        None => owned(default),
    }
}

/// `value[key].as_bool()`.
pub fn bool_field(j: &Json, key: &str) -> (r: Option<bool>)
    ensures
        r == bool_at(j@, key@),
{
    match json_get(j, key) {
        Some(v) => json_as_bool(v),
        None => None,
    }
}

/// `value[key].as_u64()`.
pub fn u64_field(j: &Json, key: &str) -> (r: Option<u64>)
    ensures
        match r {
            Some(n) => u64_at(j@, key@) == Some(n as nat),
            None => u64_at(j@, key@) is None,
        },
{
    match json_get(j, key) {
        Some(v) => json_as_u64(v),
        None => None,
    }
}

/// `value[key].as_i64()`.
pub fn i64_field(j: &Json, key: &str) -> (r: Option<i64>)
    ensures
        match r {
            Some(n) => i64_at(j@, key@) == Some(n as int),
            None => i64_at(j@, key@) is None,
        },
{
    match json_get(j, key) {
        Some(v) => json_as_i64(v),
        None => None,
    }
}

pub fn number_clone(n: &JsonNumber) -> (r: JsonNumber)
    ensures
        r@ == n@,
{
    match n {
        JsonNumber::PosInt(k) => JsonNumber::PosInt(*k),
        JsonNumber::NegInt(k) => JsonNumber::NegInt(*k),
        JsonNumber::Float(t) => JsonNumber::Float(owned(t.as_str())),
    }
}

/// A copy of a value.
pub fn deep_clone(j: &Json) -> (r: Json)
    ensures
        r@ == j@,
    decreases j,
{
    match j {
        Json::Null => Json::Null,
        Json::Bool(b) => Json::Bool(*b),
        Json::Number(n) => Json::Number(number_clone(n)),
        Json::Str(s) => Json::Str(owned(s.as_str())),
        Json::Array(items) => {
            let mut out: Vec<Json> = Vec::new();
            let mut i: usize = 0;
            while i < items.len()
                invariant
                    *j == Json::Array(*items),
                    i <= items.len(),
                    out.len() == i,
                    forall|k: int| 0 <= k < i ==> #[trigger] out[k]@ == items[k]@,
                decreases items.len() - i,
            {
                proof {
                    vstd::std_specs::vec::axiom_vec_index_decreases(*items, i as int);
                    assert(decreases_to!(*j => (*j)->Array_0));
                }
                let c = deep_clone(&items[i]);
                out.push(c);
                i = i + 1;
            }
            proof {
                lemma_jv_items(out, out.len() as nat);
                lemma_jv_items(*items, items.len() as nat);
                assert forall|k: int| 0 <= k < out.len() implies jv_items(out, out.len() as nat)[k]
                    == jv_items(*items, items.len() as nat)[k] by {
                    assert(out[k]@ == items[k]@);
                }
                assert(jv_items(out, out.len() as nat) =~= jv_items(*items, items.len() as nat));
            }
            Json::Array(out)
        },
        Json::Object(entries) => {
            let mut out: Vec<(String, Json)> = Vec::new();
            let mut i: usize = 0;
            while i < entries.len()
                invariant
                    *j == Json::Object(*entries),
                    i <= entries.len(),
                    out.len() == i,
                    forall|k: int|
                        #![trigger out[k]]
                        0 <= k < i ==> out[k].0@ == entries[k].0@ && out[k].1@ == entries[k].1@,
                decreases entries.len() - i,
            {
                proof {
                    vstd::std_specs::vec::axiom_vec_index_decreases(*entries, i as int);
                    assert(decreases_to!(*j => (*j)->Object_0));
                    assert(decreases_to!(entries[i as int] => entries[i as int].1));
                }
                let c = deep_clone(&entries[i].1);
                let k = owned(entries[i].0.as_str());
                out.push((k, c));
                i = i + 1;
            }
            proof {
                lemma_jv_entries(out, out.len() as nat);
                lemma_jv_entries(*entries, entries.len() as nat);
                assert forall|k: int| 0 <= k < out.len() implies jv_entries(out, out.len() as nat)[k]
                    == jv_entries(*entries, entries.len() as nat)[k] by {
                    assert(out[k].0@ == entries[k].0@ && out[k].1@ == entries[k].1@);
                }
                assert(jv_entries(out, out.len() as nat) =~= jv_entries(*entries, entries.len() as nat));
            }
            Json::Object(out)
        },
    }
}

/// The model of a list of entries.
pub open spec fn entries_view(entries: Seq<(String, Json)>) -> Seq<(Seq<char>, JsonV)> {
    Seq::new(entries.len(), |i: int| (entries[i].0@, jv(entries[i].1)))
}

/// The model of a list of values.
pub open spec fn items_view(items: Seq<Json>) -> Seq<JsonV> {
    Seq::new(items.len(), |i: int| jv(items[i]))
}

/// An object made of the given entries, in the given order.
pub fn make_object(entries: Vec<(String, Json)>) -> (r: Json)
    ensures
        r@ == JsonV::Obj(entries_view(entries@)),
{
    proof {
        lemma_jv_entries(entries, entries.len() as nat);
        assert(jv_entries(entries, entries.len() as nat) =~= entries_view(entries@));
    }
    Json::Object(entries)
}

/// An array made of the given items, in the given order.
pub fn make_array(items: Vec<Json>) -> (r: Json)
    ensures
        r@ == JsonV::Arr(items_view(items@)),
{
    proof {
        lemma_jv_items(items, items.len() as nat);
        assert(jv_items(items, items.len() as nat) =~= items_view(items@));
    }
    Json::Array(items)
}

/// A string value.
pub fn json_string(s: &str) -> (r: Json)
    ensures
        r@ == JsonV::Str(s@),
{
    Json::Str(owned(s))
}

/// The index of the first entry under `key`, when `j` is an object that has one.
pub fn json_get_index(j: &Json, key: &str) -> (r: Option<usize>)
    ensures
        match r {
            Some(k) => j is Object && k < j->Object_0.len() && j@.get(key@) == Some(
                jv(j->Object_0[k as int].1),
            ) && j@.index_of(key@) == Some(k as int) && j@ is Obj && k < j@->Obj_0.len() && j@->Obj_0[k as int].1 == jv(j->Object_0[k as int].1),
            None => j@.get(key@) is None && j@.index_of(key@) is None,
        },
{
    match j {
        Json::Object(entries) => {
            proof {
                lemma_jv_entries(*entries, entries.len() as nat);
            }
            let ghost es = jv_entries(*entries, entries.len() as nat);
            let mut i: usize = 0;
            while i < entries.len()
                invariant
                    *j == Json::Object(*entries),
                    i <= entries.len(),
                    es == jv_entries(*entries, entries.len() as nat),
                    es.len() == entries.len(),
                    forall|k: int| 0 <= k < entries.len() ==> #[trigger] es[k] == (entries[k].0@, jv(entries[k].1)),
                    entries_get_from(es, key@, 0) == entries_get_from(es, key@, i as int),
                    entries_index_from(es, key@, 0) == entries_index_from(es, key@, i as int),
                decreases entries.len() - i,
            {
                if str_eq(entries[i].0.as_str(), key) {
                    assert(j@ == JsonV::Obj(es));
                    assert(es[i as int].0 == key@);
                    return Some(i);
                }
                i = i + 1;
            }
            assert(j@ == JsonV::Obj(es));
            None
        },
        _ => None,
    }
}

/// Index of the first entry whose key is `key`, scanning from index `i`.
pub open spec fn entries_index_from(es: Seq<(Seq<char>, JsonV)>, key: Seq<char>, i: int) -> Option<int>
    decreases es.len() - i,
{
    if i < 0 || i >= es.len() {
        None
    } else if es[i].0 == key {
        Some(i)
    } else {
        entries_index_from(es, key, i + 1)
    }
}

impl JsonV {
    /// Index of the entry under `key`, when this is an object that has one.
    pub open spec fn index_of(self, key: Seq<char>) -> Option<int> {
        match self {
            JsonV::Obj(es) => entries_index_from(es, key, 0),
            _ => None,
        }
    }
}

pub proof fn lemma_index_from(es: Seq<(Seq<char>, JsonV)>, key: Seq<char>, i: int)
    requires
        0 <= i,
    ensures
        match entries_index_from(es, key, i) {
            Some(k) => i <= k < es.len() && es[k].0 == key && entries_get_from(es, key, i) == Some(es[k].1),
            None => entries_get_from(es, key, i) is None,
        },
    decreases es.len() - i,
{
    if i < es.len() && es[i].0 != key {
        lemma_index_from(es, key, i + 1);
    }
}

/// The entry index and the lookup agree.
pub proof fn lemma_index_of(v: JsonV, key: Seq<char>)
    ensures
        match v.index_of(key) {
            Some(k) => v is Obj && 0 <= k < v->Obj_0.len() && v->Obj_0[k].0 == key && v.get(key) == Some(v->Obj_0[k].1),
            None => v.get(key) is None,
        },
{
    match v {
        JsonV::Obj(es) => lemma_index_from(es, key, 0),
        _ => {},
    }
}

// ── Compact text ─────────────────────────────────────────────────────────────
/// The text of a number, as serde_json writes it.
pub open spec fn num_text(n: NumV) -> Seq<char> {
    match n {
        NumV::PosInt(k) => nat_decimal(k),
        NumV::NegInt(k) => int_decimal(k),
        NumV::Float(t) => t,
    }
}

/// `Number`'s `Display`: an integer in decimal, a float as its held text.
pub fn number_text(n: &JsonNumber) -> (r: String)
    ensures
        r@ == num_text(n@),
{
    match n {
        JsonNumber::PosInt(k) => crate::text::string_of(&u64_decimal(*k)),
        JsonNumber::NegInt(k) => crate::text::string_of(&i64_decimal(*k)),
        JsonNumber::Float(t) => t.clone(),
    }
}

/// The text `serde_json::to_string` writes for a value. serde_json's
/// writer (its escapes, and the order in which its map gives back an
/// object's keys) is not restated here: the text is only named.
pub uninterp spec fn compact(v: JsonV) -> Seq<char>;

/// A value of this crate as a serde_json value: each variant to its own,
/// a float read back from its text. It only converts; what the text
/// becomes is stated by `compact_json`.
#[verifier::external_body]
fn value_of_json(j: &Json) -> (r: Value) {
    match j {
        Json::Null => Value::Null,
        Json::Bool(b) => Value::Bool(*b),
        Json::Number(JsonNumber::PosInt(u)) => Value::from(*u),
        Json::Number(JsonNumber::NegInt(i)) => Value::from(*i),
        Json::Number(JsonNumber::Float(t)) => t.parse::<Number>().map_or(Value::Null, Value::Number),
        Json::Str(s) => Value::String(s.clone()),
        Json::Array(items) => Value::Array(items.iter().map(value_of_json).collect()),
        Json::Object(es) => Value::Object(es.iter().map(|(k, x)| (k.clone(), value_of_json(x))).collect()),
    }
}

/// `serde_json::to_string(value)`: the compact text of a value. Writing a
/// `serde_json::Value` does not fail (its keys are strings); the text is
/// named `compact`.
#[verifier::external_body]
pub fn compact_json(j: &Json) -> (r: String)
    ensures
        r@ == compact(j@),
{
    serde_json::to_string(&value_of_json(j)).unwrap_or_default()
}

fn number_eq(a: &JsonNumber, b: &JsonNumber) -> (r: bool)
    ensures
        r == (a@ == b@),
{
    match (a, b) {
        (JsonNumber::PosInt(x), JsonNumber::PosInt(y)) => *x == *y,
        (JsonNumber::NegInt(x), JsonNumber::NegInt(y)) => *x == *y,
        (JsonNumber::Float(x), JsonNumber::Float(y)) => str_eq(x.as_str(), y.as_str()),
        _ => false,
    }
}

/// `a == b` on values: the same shape with equal parts, objects entry by
/// entry in order.
pub fn json_eq(a: &Json, b: &Json) -> (r: bool)
    ensures
        r == (a@ == b@),
    decreases a,
{
    match (a, b) {
        (Json::Null, Json::Null) => true,
        (Json::Bool(x), Json::Bool(y)) => *x == *y,
        (Json::Number(x), Json::Number(y)) => number_eq(x, y),
        (Json::Str(x), Json::Str(y)) => str_eq(x.as_str(), y.as_str()),
        (Json::Array(xs), Json::Array(ys)) => {
            proof {
                lemma_jv_items(*xs, xs.len() as nat);
                lemma_jv_items(*ys, ys.len() as nat);
            }
            if xs.len() != ys.len() {
                assert(jv_items(*xs, xs.len() as nat).len() != jv_items(*ys, ys.len() as nat).len());
                return false;
            }
            let mut i: usize = 0;
            while i < xs.len()
                invariant
                    *a == Json::Array(*xs),
                    *b == Json::Array(*ys),
                    xs.len() == ys.len(),
                    i <= xs.len(),
                    forall|k: int| 0 <= k < i ==> #[trigger] xs[k]@ == ys[k]@,
                decreases xs.len() - i,
            {
                proof {
                    vstd::std_specs::vec::axiom_vec_index_decreases(*xs, i as int);
                    assert(decreases_to!(*a => (*a)->Array_0));
                }
                if !json_eq(&xs[i], &ys[i]) {
                    proof {
                        lemma_jv_items(*xs, xs.len() as nat);
                        lemma_jv_items(*ys, ys.len() as nat);
                    }
                    assert(jv_items(*xs, xs.len() as nat)[i as int] != jv_items(*ys, ys.len() as nat)[i as int]);
                    return false;
                }
                i = i + 1;
            }
            assert(jv_items(*xs, xs.len() as nat) =~= jv_items(*ys, ys.len() as nat)) by {
                assert forall|k: int| 0 <= k < xs.len() implies jv_items(*xs, xs.len() as nat)[k]
                    == jv_items(*ys, ys.len() as nat)[k] by {
                    assert(xs[k]@ == ys[k]@);
                }
            }
            true
        },
        (Json::Object(xs), Json::Object(ys)) => {
            proof {
                lemma_jv_entries(*xs, xs.len() as nat);
                lemma_jv_entries(*ys, ys.len() as nat);
            }
            if xs.len() != ys.len() {
                assert(jv_entries(*xs, xs.len() as nat).len() != jv_entries(*ys, ys.len() as nat).len());
                return false;
            }
            let mut i: usize = 0;
            while i < xs.len()
                invariant
                    *a == Json::Object(*xs),
                    *b == Json::Object(*ys),
                    xs.len() == ys.len(),
                    i <= xs.len(),
                    forall|k: int| #![trigger xs[k]] 0 <= k < i ==> xs[k].0@ == ys[k].0@ && xs[k].1@ == ys[k].1@,
                decreases xs.len() - i,
            {
                proof {
                    vstd::std_specs::vec::axiom_vec_index_decreases(*xs, i as int);
                    assert(decreases_to!(*a => (*a)->Object_0));
                    assert(decreases_to!(xs[i as int] => xs[i as int].1));
                }
                if !str_eq(xs[i].0.as_str(), ys[i].0.as_str()) || !json_eq(&xs[i].1, &ys[i].1) {
                    proof {
                        lemma_jv_entries(*xs, xs.len() as nat);
                        lemma_jv_entries(*ys, ys.len() as nat);
                    }
                    assert(jv_entries(*xs, xs.len() as nat)[i as int] != jv_entries(*ys, ys.len() as nat)[i as int]);
                    return false;
                }
                i = i + 1;
            }
            assert(jv_entries(*xs, xs.len() as nat) =~= jv_entries(*ys, ys.len() as nat)) by {
                assert forall|k: int| 0 <= k < xs.len() implies jv_entries(*xs, xs.len() as nat)[k]
                    == jv_entries(*ys, ys.len() as nat)[k] by {
                    assert(xs[k].0@ == ys[k].0@ && xs[k].1@ == ys[k].1@);
                }
            }
            true
        },
        _ => false,
    }
}

/// The string items of a list, in order; other items are skipped.
pub open spec fn string_items(items: Seq<JsonV>) -> Seq<Seq<char>>
    decreases items.len(),
{
    if items.len() == 0 {
        Seq::empty()
    } else {
        let rest = string_items(items.drop_last());
        match items.last() {
            JsonV::Str(s) => rest.push(s),
            _ => rest,
        }
    }
}

/// The strings of the list under a key; nothing where it is not a list.
pub open spec fn string_list_at(v: JsonV, key: Seq<char>) -> Seq<Seq<char>> {
    match v.at(key).as_array() {
        Some(items) => string_items(items),
        None => Seq::empty(),
    }
}

/// A list of strings as a JSON array.
pub open spec fn str_array(s: Seq<Seq<char>>) -> JsonV {
    JsonV::Arr(s.map_values(|t: Seq<char>| JsonV::Str(t)))
}

/// Reading back the strings of a list of strings gives them back.
pub proof fn lemma_string_items_roundtrip(s: Seq<Seq<char>>)
    ensures
        string_items(s.map_values(|t: Seq<char>| JsonV::Str(t))) == s,
    decreases s.len(),
{
    if s.len() > 0 {
        lemma_string_items_roundtrip(s.drop_last());
        assert(s.map_values(|t: Seq<char>| JsonV::Str(t)).drop_last() =~= s.drop_last().map_values(
            |t: Seq<char>| JsonV::Str(t),
        ));
        assert(s.drop_last().push(s.last()) =~= s);
    } else {
        assert(s =~= Seq::<Seq<char>>::empty());
    }
}

/// `value[key]` as a list of strings.
pub fn str_list_at(j: &Json, key: &str) -> (r: Vec<String>)
    ensures
        crate::text::strings_view(r@) == string_list_at(j@, key@),
{
    let mut out: Vec<String> = Vec::new();
    match json_get(j, key) {
        Some(Json::Array(items)) => {
            proof {
                lemma_jv_items(*items, items.len() as nat);
            }
            let ghost iv = jv_items(*items, items.len() as nat);
            let mut i: usize = 0;
            while i < items.len()
                invariant
                    i <= items.len(),
                    iv == jv_items(*items, items.len() as nat),
                    iv.len() == items.len(),
                    forall|k: int| 0 <= k < items.len() ==> #[trigger] iv[k] == jv(items[k]),
                    crate::text::strings_view(out@) == string_items(iv.take(i as int)),
                decreases items.len() - i,
            {
                proof {
                    assert(iv.take(i + 1).drop_last() =~= iv.take(i as int));
                    assert(iv.take(i + 1).last() == iv[i as int]);
                }
                match &items[i] {
                    Json::Str(s) => {
                        let ghost before = out@;
                        out.push(owned(s.as_str()));
                        assert(crate::text::strings_view(out@) =~= crate::text::strings_view(before).push(s@));
                    },
                    _ => {},
                }
                i = i + 1;
            }
            assert(iv.take(items.len() as int) =~= iv);
        },
        _ => {
            proof {
                if j@.get(key@) is Some {
                    assert(j@.at(key@).as_array() is None);
                }
            }
        },
    }
    out
}

/// A list of strings as a JSON array.
pub fn str_array_of(v: &Vec<String>) -> (r: Json)
    ensures
        r@ == str_array(crate::text::strings_view(v@)),
{
    let mut items: Vec<Json> = Vec::new();
    let mut i: usize = 0;
    while i < v.len()
        invariant
            i <= v.len(),
            items_view(items@) == crate::text::strings_view(v@).take(i as int).map_values(|t: Seq<char>| JsonV::Str(t)),
        decreases v.len() - i,
    {
        let ghost before = items@;
        items.push(Json::Str(owned(v[i].as_str())));
        assert(items_view(items@) =~= items_view(before).push(JsonV::Str(v@[i as int]@)));
        assert(crate::text::strings_view(v@).take(i + 1).map_values(|t: Seq<char>| JsonV::Str(t)) =~= crate::text::strings_view(
            v@,
        ).take(i as int).map_values(|t: Seq<char>| JsonV::Str(t)).push(JsonV::Str(v@[i as int]@)));
        i = i + 1;
    }
    assert(crate::text::strings_view(v@).take(v.len() as int) =~= crate::text::strings_view(v@));
    make_array(items)
}

// ── JSON text ────────────────────────────────────────────────────────────────
#[verifier::external_type_specification]
#[verifier::external_body]
pub struct ExJsonValue(Value);

/// The value serde_json reads from a JSON text, or `None` where it refuses
/// the text.
pub uninterp spec fn json_text_value(text: Seq<char>) -> Option<JsonV>;

/// A serde_json value in this crate's form: each variant to its own,
/// integers kept apart as serde_json keeps them, a float as its `Display`
/// text. It only converts; what it gives is stated by `parse_json`.
#[verifier::external_body]
fn json_of_value(v: &Value) -> (r: Json) {
    match v {
        Value::Null => Json::Null,
        Value::Bool(b) => Json::Bool(*b),
        Value::Number(n) => Json::Number(match (n.as_u64(), n.as_i64()) {
            (Some(u), _) => JsonNumber::PosInt(u),
            (None, Some(i)) => JsonNumber::NegInt(i),
            (None, None) => JsonNumber::Float(n.to_string()),
        }),
        Value::String(t) => Json::Str(t.clone()),
        Value::Array(items) => Json::Array(items.iter().map(json_of_value).collect()),
        Value::Object(m) => Json::Object(m.iter().map(|(k, x)| (k.clone(), json_of_value(x))).collect()),
    }
}

/// `serde_json::from_str::<serde_json::Value>(text).ok()`, in this crate's
/// form. The grammar serde_json reads, and the order in which its map gives
/// back an object's keys, are not restated: the result is named
/// `json_text_value`.
#[verifier::external_body]
pub(crate) fn parse_json(text: &str) -> (r: Option<Json>)
    ensures
        match r {
            Some(j) => json_text_value(text@) == Some(j@),
            None => json_text_value(text@) is None,
        },
{
    match serde_json::from_str::<Value>(text) {
        Ok(v) => Some(json_of_value(&v)),
        Err(_) => None,
    }
}

} // verus!
