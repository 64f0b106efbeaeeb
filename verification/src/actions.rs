//! Plugin actions published in a plugin's capability manifest: their
//! parameter forms, the values those forms hold, and how an action's row
//! responds to a click.
use vstd::prelude::*;
use crate::text::{str_eq, owned, trim, trimmed, chars_of, concat2, parse_i64, parse_i64_chars};
use crate::json::{
    Json, JsonV, json_get, deep_clone, entries_view, items_view, opt_view, str_at_or, jv,
    jv_entries, lemma_jv_entries, jv_items, lemma_jv_items, make_object,
};
use crate::criteria::{int_json, int_value};
use crate::sort::{KeyPart, KeyPartV, key_view, keys_view, stable_sorted, sort_by_keys, lemma_sorted_map};

verus! {

// ── Parameter definitions ────────────────────────────────────────────────────
/// One field of an action's parameter form.
pub struct ParamDef {
    pub name: String,
    /// The schema type; `string` where none is given.
    pub ty: String,
    pub default: Option<Json>,
    pub enum_values: Option<Vec<Json>>,
    pub required: bool,
    /// The `minimum` value, where it is a number.
    pub minimum: Option<Json>,
    /// The `maximum` value, where it is a number.
    pub maximum: Option<Json>,
    pub description: Option<String>,
}

pub struct ParamDefV {
    pub name: Seq<char>,
    pub ty: Seq<char>,
    pub default: Option<JsonV>,
    pub enum_values: Option<Seq<JsonV>>,
    pub required: bool,
    pub minimum: Option<JsonV>,
    pub maximum: Option<JsonV>,
    pub description: Option<Seq<char>>,
}

pub open spec fn opt_jv(o: Option<Json>) -> Option<JsonV> {
    match o {
        Some(j) => Some(j@),
        None => None,
    }
}

impl View for ParamDef {
    type V = ParamDefV;

    open spec fn view(&self) -> ParamDefV {
        ParamDefV {
            name: self.name@,
            ty: self.ty@,
            default: opt_jv(self.default),
            enum_values: match self.enum_values {
                Some(v) => Some(items_view(v@)),
                None => None,
            },
            required: self.required,
            minimum: opt_jv(self.minimum),
            maximum: opt_jv(self.maximum),
            description: opt_view(self.description),
        }
    }
}

pub open spec fn params_view(v: Seq<ParamDef>) -> Seq<ParamDefV> {
    Seq::new(v.len(), |i: int| v[i]@)
}

pub open spec fn opt_ref_jv(o: Option<&Json>) -> Option<JsonV> {
    match o {
        Some(j) => Some(j@),
        None => None,
    }
}

/// A value where it is a number.
pub open spec fn if_number(v: Option<JsonV>) -> Option<JsonV> {
    match v {
        Some(JsonV::Num(n)) => Some(JsonV::Num(n)),
        _ => None,
    }
}

/// The field that a schema entry describes.
pub open spec fn param_of(name: Seq<char>, spec: JsonV) -> ParamDefV {
    ParamDefV {
        name,
        ty: str_at_or(spec, "type"@, "string"@),
        default: spec.get("default"@),
        enum_values: match spec.get("enum"@) {
            Some(v) => v.as_array(),
            None => None,
        },
        required: match spec.at("required"@).as_bool() {
            Some(b) => b,
            None => false,
        },
        minimum: if_number(spec.get("minimum"@)),
        maximum: if_number(spec.get("maximum"@)),
        description: spec.at("description"@).as_str(),
    }
}

/// The fields of a parameter schema object, in its order (nothing unless it
/// is an object).
pub open spec fn params_of(params: Option<JsonV>) -> Seq<ParamDefV> {
    match params {
        Some(JsonV::Obj(es)) => es.map_values(|e: (Seq<char>, JsonV)| param_of(e.0, e.1)),
        _ => Seq::empty(),
    }
}

pub open spec fn param_keys(v: Seq<ParamDefV>) -> Seq<Seq<KeyPartV>> {
    v.map_values(|p: ParamDefV| seq![KeyPartV::Text(p.name)])
}

fn number_or_none(v: Option<&Json>) -> (r: Option<Json>)
    ensures
        opt_jv(r) == if_number(
            match v {
                Some(j) => Some(j@),
                None => None,
            },
        ),
{
    match v {
        Some(j) => match j {
            Json::Number(_) => Some(deep_clone(j)),
            _ => None,
        },
        None => None,
    }
}

fn opt_clone(v: Option<&Json>) -> (r: Option<Json>)
    ensures
        opt_jv(r) == match v {
            Some(j) => Some(j@),
            None => None,
        },
{
    match v {
        Some(j) => Some(deep_clone(j)),
        None => None,
    }
}

/// The field a schema entry describes.
pub fn param_from(name: &str, spec: &Json) -> (r: ParamDef)
    ensures
        r@ == param_of(name@, spec@),
{
    let ty = crate::json::str_field_or(spec, "type", "string");
    let enum_values = match json_get(spec, "enum") {
        Some(Json::Array(items)) => {
            let mut out: Vec<Json> = Vec::new();
            let mut i: usize = 0;
            proof {
                lemma_jv_items(*items, items.len() as nat);
            }
            while i < items.len()
                invariant
                    i <= items.len(),
                    out.len() == i,
                    forall|k: int| 0 <= k < i ==> #[trigger] out@[k]@ == items@[k]@,
                decreases items.len() - i,
            {
                out.push(deep_clone(&items[i]));
                i = i + 1;
            }
            proof {
                lemma_jv_items(*items, items.len() as nat);
                assert forall|k: int| 0 <= k < items.len() implies #[trigger] items_view(out@)[k]
                    == jv_items(*items, items.len() as nat)[k] by {
                    assert(out@[k]@ == items@[k]@);
                }
                assert(items_view(out@) =~= jv_items(*items, items.len() as nat));
            }
            Some(out)
        },
        _ => None,
    };
    let required = match crate::json::bool_field(spec, "required") {
        Some(b) => b,
        None => false,
    };
    ParamDef {
        name: owned(name),
        ty,
        default: opt_clone(json_get(spec, "default")),
        enum_values,
        required,
        minimum: number_or_none(json_get(spec, "minimum")),
        maximum: number_or_none(json_get(spec, "maximum")),
        description: crate::json::str_field(spec, "description"),
    }
}

/// The form fields of a parameter schema, ordered by name; fields with the
/// same name keep their order.
pub fn parse_params(params: Option<&Json>) -> (r: Vec<ParamDef>)
    ensures
        ({
            let defs = params_of(opt_ref_jv(params));
            exists|perm: Seq<int>| stable_sorted(defs, param_keys(defs), false, params_view(r@), perm)
        }),
{
    let mut defs: Vec<ParamDef> = Vec::new();
    let mut keys: Vec<Vec<KeyPart>> = Vec::new();
    let ghost pv: Option<JsonV> = opt_ref_jv(params);
    match params {
        Some(Json::Object(entries)) => {
            proof {
                lemma_jv_entries(*entries, entries.len() as nat);
            }
            let ghost es = jv_entries(*entries, entries.len() as nat);
            let mut i: usize = 0;
            while i < entries.len()
                invariant
                    i <= entries.len(),
                    es == jv_entries(*entries, entries.len() as nat),
                    es.len() == entries.len(),
                    forall|k: int| 0 <= k < entries.len() ==> #[trigger] es[k] == (entries[k].0@, jv(entries[k].1)),
                    defs.len() == i,
                    keys.len() == i,
                    params_view(defs@) == es.take(i as int).map_values(|e: (Seq<char>, JsonV)| param_of(e.0, e.1)),
                    keys_view(keys@) == param_keys(params_view(defs@)),
                decreases entries.len() - i,
            {
                let d = param_from(entries[i].0.as_str(), &entries[i].1);
                let mut k: Vec<KeyPart> = Vec::new();
                k.push(KeyPart::Text(owned(entries[i].0.as_str())));
                let ghost b_defs = defs@;
                let ghost b_keys = keys@;
                defs.push(d);
                keys.push(k);
                proof {
                    assert(params_view(defs@) =~= params_view(b_defs).push(param_of(es[i as int].0, es[i as int].1)));
                    assert(es.take(i + 1).map_values(|e: (Seq<char>, JsonV)| param_of(e.0, e.1)) =~= es.take(
                        i as int,
                    ).map_values(|e: (Seq<char>, JsonV)| param_of(e.0, e.1)).push(param_of(es[i as int].0, es[i as int].1)));
                    assert(key_view(keys@[i as int]@) =~= seq![KeyPartV::Text(es[i as int].0)]);
                    assert(keys_view(keys@) =~= keys_view(b_keys).push(seq![KeyPartV::Text(es[i as int].0)]));
                    assert(param_keys(params_view(defs@)) =~= param_keys(params_view(b_defs)).push(
                        seq![KeyPartV::Text(es[i as int].0)],
                    ));
                }
                i = i + 1;
            }
            proof {
                assert(es.take(entries.len() as int) =~= es);
            }
        },
        _ => {},
    }
    assert(params_view(defs@) == params_of(pv));
    let ghost d0 = defs@;
    let ghost k0 = keys_view(keys@);
    let sorted = sort_by_keys(defs, keys, false);
    proof {
        let perm = choose|perm: Seq<int>| stable_sorted(d0, k0, false, sorted@, perm);
        lemma_sorted_map(d0, k0, false, sorted@, perm, |p: ParamDef| p@);
        assert(d0.map_values(|p: ParamDef| p@) =~= params_view(d0));
        assert(sorted@.map_values(|p: ParamDef| p@) =~= params_view(sorted@));
        assert(stable_sorted(params_of(pv), param_keys(params_of(pv)), false, params_view(sorted@), perm));
    }
    sorted
}

// ── Form values ──────────────────────────────────────────────────────────────
/// The value a form holds under a name: the first entry with that name.
pub open spec fn form_get(es: Seq<(Seq<char>, JsonV)>, name: Seq<char>) -> Option<JsonV>
    decreases es.len(),
{
    if es.len() == 0 {
        None
    } else {
        match form_get(es.drop_last(), name) {
            Some(v) => Some(v),
            None => if es.last().0 == name {
                Some(es.last().1)
            } else {
                None
            },
        }
    }
}

/// The entries without a name.
pub open spec fn without(es: Seq<(Seq<char>, JsonV)>, name: Seq<char>) -> Seq<(Seq<char>, JsonV)> {
    es.filter(|e: (Seq<char>, JsonV)| e.0 != name)
}

/// The values a parameter form holds, by name.
pub struct FormState {
    pub entries: Vec<(String, Json)>,
}

impl View for FormState {
    type V = Seq<(Seq<char>, JsonV)>;

    open spec fn view(&self) -> Seq<(Seq<char>, JsonV)> {
        entries_view(self.entries@)
    }
}

proof fn lemma_get_push(es: Seq<(Seq<char>, JsonV)>, e: (Seq<char>, JsonV), name: Seq<char>)
    ensures
        form_get(es.push(e), name) == match form_get(es, name) {
            Some(v) => Some(v),
            None => if e.0 == name {
                Some(e.1)
            } else {
                None
            },
        },
{
    assert(es.push(e).drop_last() =~= es);
}

proof fn lemma_get_without(es: Seq<(Seq<char>, JsonV)>, name: Seq<char>, other: Seq<char>)
    ensures
        form_get(without(es, name), other) == if other == name {
            None
        } else {
            form_get(es, other)
        },
    decreases es.len(),
{
    if es.len() > 0 {
        lemma_get_without(es.drop_last(), name, other);
        let w = without(es, name);
        let wd = without(es.drop_last(), name);
        assert(w == if es.last().0 != name {
            wd.push(es.last())
        } else {
            wd
        }) by {
            reveal_with_fuel(Seq::filter, 1);
        }
        if es.last().0 != name {
            lemma_get_push(wd, es.last(), other);
        }
    } else {
        assert(without(es, name) =~= es) by {
            reveal_with_fuel(Seq::filter, 1);
        }
    }
}

impl FormState {
    pub fn new() -> (r: Self)
        ensures
            r@ == Seq::<(Seq<char>, JsonV)>::empty(),
    {
        FormState { entries: Vec::new() }
    }

    /// The value under a name.
    pub fn get(&self, name: &str) -> (r: Option<Json>)
        ensures
            opt_jv(r) == form_get(self@, name@),
    {
        let ghost es = self@;
        let mut found: Option<usize> = None;
        let mut k: usize = 0;
        while k < self.entries.len()
            invariant
                k <= self.entries.len(),
                es == entries_view(self.entries@),
                match found {
                    Some(p) => p < k && form_get(es.take(k as int), name@) == Some(es[p as int].1),
                    None => form_get(es.take(k as int), name@) is None,
                },
            decreases self.entries.len() - k,
        {
            proof {
                assert(es.take(k + 1) =~= es.take(k as int).push(es[k as int]));
                lemma_get_push(es.take(k as int), es[k as int], name@);
            }
            if found.is_none() && str_eq(self.entries[k].0.as_str(), name) {
                found = Some(k);
            }
            k = k + 1;
        }
        assert(es.take(self.entries.len() as int) =~= es);
        match found {
            Some(p) => Some(deep_clone(&self.entries[p].1)),
            None => None,
        }
    }

    /// `insert`: the name now holds the value.
    pub fn insert(&mut self, name: &str, value: Json)
        ensures
            final(self)@ == without(old(self)@, name@).push((name@, value@)),
    {
        self.remove(name);
        let ghost before = self.entries@;
        self.entries.push((owned(name), value));
        assert(entries_view(self.entries@) =~= entries_view(before).push((name@, value@)));
    }

    /// `remove`: the name holds nothing.
    pub fn remove(&mut self, name: &str)
        ensures
            final(self)@ == without(old(self)@, name@),
    {
        let ghost es = self@;
        let ghost pred = |e: (Seq<char>, JsonV)| e.0 != name@;
        let mut kept: Vec<(String, Json)> = Vec::new();
        let mut i: usize = 0;
        while i < self.entries.len()
            invariant
                i <= self.entries.len(),
                es == entries_view(self.entries@),
                pred == (|e: (Seq<char>, JsonV)| e.0 != name@),
                entries_view(kept@) == es.take(i as int).filter(pred),
            decreases self.entries.len() - i,
        {
            proof {
                assert(es.take(i + 1).drop_last() =~= es.take(i as int));
                reveal_with_fuel(Seq::filter, 1);
            }
            if !str_eq(self.entries[i].0.as_str(), name) {
                let ghost before = kept@;
                kept.push((owned(self.entries[i].0.as_str()), deep_clone(&self.entries[i].1)));
                assert(entries_view(kept@) =~= entries_view(before).push(es[i as int]));
            }
            i = i + 1;
        }
        assert(es.take(self.entries.len() as int) =~= es);
        self.entries = kept;
    }

    /// What a field writes: `null` clears the name, anything else is stored.
    pub fn set_field(&mut self, name: &str, value: Json)
        ensures
            value@ == JsonV::Null ==> final(self)@ == without(old(self)@, name@),
            value@ != JsonV::Null ==> final(self)@ == without(old(self)@, name@).push((name@, value@)),
    {
        match value {
            Json::Null => self.remove(name),
            _ => self.insert(name, value),
        }
    }

    /// The request body: an object of the form's entries.
    pub fn to_body(&self) -> (r: Json)
        ensures
            r@ == JsonV::Obj(self@),
    {
        let mut out: Vec<(String, Json)> = Vec::new();
        let mut i: usize = 0;
        while i < self.entries.len()
            invariant
                i <= self.entries.len(),
                entries_view(out@) == entries_view(self.entries@).take(i as int),
            decreases self.entries.len() - i,
        {
            let ghost before = out@;
            out.push((owned(self.entries[i].0.as_str()), deep_clone(&self.entries[i].1)));
            assert(entries_view(out@) =~= entries_view(before).push(entries_view(self.entries@)[i as int]));
            assert(entries_view(out@) =~= entries_view(self.entries@).take(i + 1));
            i = i + 1;
        }
        assert(entries_view(self.entries@).take(self.entries.len() as int) =~= entries_view(self.entries@));
        make_object(out)
    }
}

/// A field set to a value reads back as that value, and the other fields
/// keep theirs; a field set to `null` reads back as nothing.
pub proof fn law_field_readback(es: Seq<(Seq<char>, JsonV)>, name: Seq<char>, value: JsonV, other: Seq<char>)
    requires
        other != name,
    ensures
        value != JsonV::Null ==> form_get(without(es, name).push((name, value)), name) == Some(value),
        value != JsonV::Null ==> form_get(without(es, name).push((name, value)), other) == form_get(es, other),
        form_get(without(es, name), name) is None,
        form_get(without(es, name), other) == form_get(es, other),
{
    lemma_get_without(es, name, name);
    lemma_get_without(es, name, other);
    lemma_get_push(without(es, name), (name, value), name);
    lemma_get_push(without(es, name), (name, value), other);
}

/// The values a form starts with: each field's default, in field order.
pub open spec fn initial_of(params: Seq<ParamDefV>) -> Seq<(Seq<char>, JsonV)>
    decreases params.len(),
{
    if params.len() == 0 {
        Seq::empty()
    } else {
        let rest = initial_of(params.drop_last());
        match params.last().default {
            Some(d) => without(rest, params.last().name).push((params.last().name, d)),
            None => rest,
        }
    }
}

pub fn initial_form_state(params: &Vec<ParamDef>) -> (r: FormState)
    ensures
        r@ == initial_of(params_view(params@)),
{
    let ghost pv = params_view(params@);
    let mut state = FormState::new();
    let mut i: usize = 0;
    while i < params.len()
        invariant
            i <= params.len(),
            pv == params_view(params@),
            state@ == initial_of(pv.take(i as int)),
        decreases params.len() - i,
    {
        proof {
            assert(pv.take(i + 1).drop_last() =~= pv.take(i as int));
            assert(pv.take(i + 1).last() == pv[i as int]);
        }
        match &params[i].default {
            Some(d) => state.insert(params[i].name.as_str(), deep_clone(d)),
            None => {},
        }
        i = i + 1;
    }
    assert(pv.take(params.len() as int) =~= pv);
    state
}

// ── Field inputs ─────────────────────────────────────────────────────────────
/// What typing into a field does to the form: nothing, or write a value
/// (`null` clears the field).
pub enum FieldUpdate {
    Keep,
    Write(Json),
}

pub enum FieldUpdateV {
    Keep,
    Write(JsonV),
}

impl View for FieldUpdate {
    type V = FieldUpdateV;

    open spec fn view(&self) -> FieldUpdateV {
        match self {
            FieldUpdate::Keep => FieldUpdateV::Keep,
            FieldUpdate::Write(j) => FieldUpdateV::Write(j@),
        }
    }
}

/// An integer field: empty clears it, an `i64` is written, anything else is
/// ignored.
pub open spec fn integer_update_of(raw: Seq<char>) -> FieldUpdateV {
    if raw.len() == 0 {
        FieldUpdateV::Write(JsonV::Null)
    } else {
        match parse_i64(raw) {
            Some(n) => FieldUpdateV::Write(int_json(n)),
            None => FieldUpdateV::Keep,
        }
    }
}

pub fn integer_field_update(raw: &str) -> (r: FieldUpdate)
    ensures
        r@ == integer_update_of(raw@),
{
    let cs = chars_of(raw);
    if cs.len() == 0 {
        return FieldUpdate::Write(Json::Null);
    }
    match parse_i64_chars(&cs) {
        Some(n) => FieldUpdate::Write(int_value(n)),
        None => FieldUpdate::Keep,
    }
}

/// A number field: empty clears it; otherwise `number` is the text's `f64`
/// parse as a value, written where there is one.
pub open spec fn number_update_of(raw: Seq<char>, number: Option<JsonV>) -> FieldUpdateV {
    if raw.len() == 0 {
        FieldUpdateV::Write(JsonV::Null)
    } else {
        match number {
            Some(v) => FieldUpdateV::Write(v),
            None => FieldUpdateV::Keep,
        }
    }
}

pub fn number_field_update(raw: &str, number: Option<Json>) -> (r: FieldUpdate)
    ensures
        r@ == number_update_of(raw@, opt_jv(number)),
{
    let cs = chars_of(raw);
    if cs.len() == 0 {
        return FieldUpdate::Write(Json::Null);
    }
    match number {
        Some(v) => FieldUpdate::Write(v),
        None => FieldUpdate::Keep,
    }
}

/// A text field: empty clears it, anything else is written as a string.
pub open spec fn text_update_of(raw: Seq<char>) -> FieldUpdateV {
    if raw.len() == 0 {
        FieldUpdateV::Write(JsonV::Null)
    } else {
        FieldUpdateV::Write(JsonV::Str(raw))
    }
}

pub fn text_field_update(raw: &str) -> (r: FieldUpdate)
    ensures
        r@ == text_update_of(raw@),
{
    let cs = chars_of(raw);
    if cs.len() == 0 {
        FieldUpdate::Write(Json::Null)
    } else {
        FieldUpdate::Write(Json::Str(owned(raw)))
    }
}

/// A raw JSON field: blank clears it; otherwise `parsed` is the text's parse
/// as JSON, written where there is one.
pub open spec fn json_update_of(raw: Seq<char>, parsed: Option<JsonV>) -> FieldUpdateV {
    if trimmed(raw).len() == 0 {
        FieldUpdateV::Write(JsonV::Null)
    } else {
        match parsed {
            Some(v) => FieldUpdateV::Write(v),
            None => FieldUpdateV::Keep,
        }
    }
}

pub fn json_field_update(raw: &str, parsed: Option<Json>) -> (r: FieldUpdate)
    ensures
        r@ == json_update_of(raw@, opt_jv(parsed)),
{
    let t = trim(raw);
    if t.as_str().unicode_len() == 0 {
        return FieldUpdate::Write(Json::Null);
    }
    match parsed {
        Some(v) => FieldUpdate::Write(v),
        None => FieldUpdate::Keep,
    }
}

impl FormState {
    /// Applies a field's update.
    pub fn apply(&mut self, name: &str, update: FieldUpdate)
        ensures
            match update@ {
                FieldUpdateV::Keep => final(self)@ == old(self)@,
                FieldUpdateV::Write(JsonV::Null) => final(self)@ == without(old(self)@, name@),
                FieldUpdateV::Write(v) => final(self)@ == without(old(self)@, name@).push((name@, v)),
            },
    {
        match update {
            FieldUpdate::Keep => {},
            FieldUpdate::Write(v) => self.set_field(name, v),
        }
    }
}

/// A field's label: its name, starred when required.
pub fn field_label(def: &ParamDef) -> (r: String)
    ensures
        r@ == if def.required {
            def.name@ + " *"@
        } else {
            def.name@
        },
{
    if def.required {
        concat2(def.name.as_str(), " *")
    } else {
        owned(def.name.as_str())
    }
}

// ── The action row ───────────────────────────────────────────────────────────
/// What clicking an action's button does.
#[derive(PartialEq, Eq, Structural, Clone, Copy, Debug)]
pub enum ActionClick {
    OpenDrawer,
    ToggleForm,
    Submit,
}

/// Streaming actions open the drawer; actions with parameters show their
/// form; the others run at once.
pub fn action_click(is_streaming: bool, has_params: bool) -> (r: ActionClick)
    ensures
        r == if is_streaming {
            ActionClick::OpenDrawer
        } else if has_params {
            ActionClick::ToggleForm
        } else {
            ActionClick::Submit
        },
{
    if is_streaming {
        ActionClick::OpenDrawer
    } else if has_params {
        ActionClick::ToggleForm
    } else {
        ActionClick::Submit
    }
}

pub open spec fn button_label_of(busy: bool, is_streaming: bool, has_params: bool, form_open: bool) -> Seq<char> {
    if busy {
        "Running…"@
    } else if is_streaming {
        "Run"@
    } else if has_params {
        if form_open {
            "Hide"@
        } else {
            "Configure…"@
        }
    } else {
        "Run"@
    }
}

pub fn button_label(busy: bool, is_streaming: bool, has_params: bool, form_open: bool) -> (r: &'static str)
    ensures
        r@ == button_label_of(busy, is_streaming, has_params, form_open),
{
    if busy {
        "Running…"
    } else if is_streaming {
        "Run"
    } else if has_params {
        if form_open {
            "Hide"
        } else {
            "Configure…"
        }
    } else {
        "Run"
    }
}

/// A raw JSON field as typed: blank clears it, JSON text is written as its
/// value, and other text changes nothing.
pub fn json_input_text(raw: &str) -> (r: FieldUpdate)
    ensures
        r@ == json_update_of(raw@, crate::json::json_text_value(raw@)),
{
    json_field_update(raw, crate::json::parse_json(raw))
}

} // verus!
