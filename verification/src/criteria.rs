//! Criteria-driven modes: the inline editor's drafts, how a saved criteria
//! condition is read back into drafts, and how drafts become the condition
//! that is saved.
use vstd::prelude::*;
use crate::text::{
    trim, trimmed, eq_ignore_ascii_case, parse_i64, chars_of, trim_chars, string_of, ascii_case_eq,
    parse_i64_chars, has_char, owned, str_eq, concat3, parse_u32, parse_u32_chars, is_ascii_digit,
    ascii_lower_seq, is_ws, lemma_trimmed_of_clean, int_decimal, nat_decimal,
};
use crate::json::{
    Json, JsonV, NumV, JsonNumber, str_at, str_at_or, bool_at, num_text, compact, compact_json,
    json_get, str_field, str_field_or, bool_field, deep_clone, jv, jv_items, lemma_jv_items,
    make_object, make_array, json_string, entries_view, items_view, entries_get_from,
};

verus! {

#[derive(Clone, Copy, Debug, PartialEq, Eq, Structural)]
pub enum CriteriaLogic {
    All,
    Any,
}

#[derive(Clone, Copy, Debug, PartialEq, Eq, Structural)]
pub enum CriteriaOffBehavior {
    /// The mode turns off when the on criteria stop holding.
    Inverse,
    /// The mode turns off on criteria of its own.
    Explicit,
}

#[derive(Clone, Copy, Debug, PartialEq, Eq, Structural)]
pub enum CriteriaSection {
    On,
    Off,
}

/// One clause of the inline criteria editor.
#[derive(Debug)]
pub enum CriterionDraft {
    DeviceState { device_id: String, attribute: String, op: String, value_text: String },
    ModeIs { mode_id: String, on: bool },
}

/// The model of a clause.
pub enum DraftV {
    DeviceState { device_id: Seq<char>, attribute: Seq<char>, op: Seq<char>, value_text: Seq<char> },
    ModeIs { mode_id: Seq<char>, on: bool },
}

impl View for CriterionDraft {
    type V = DraftV;

    open spec fn view(&self) -> DraftV {
        match self {
            CriterionDraft::DeviceState { device_id, attribute, op, value_text } => DraftV::DeviceState {
                device_id: device_id@,
                attribute: attribute@,
                op: op@,
                value_text: value_text@,
            },
            CriterionDraft::ModeIs { mode_id, on } => DraftV::ModeIs { mode_id: mode_id@, on: *on },
        }
    }
}

pub open spec fn drafts_view(ds: Seq<CriterionDraft>) -> Seq<DraftV> {
    Seq::new(ds.len(), |i: int| ds[i]@)
}

/// The saved form of a criteria-driven mode.
pub struct CriteriaModeConfig {
    pub on_condition: Json,
    pub off_behavior: CriteriaOffBehavior,
    pub off_condition: Option<Json>,
    pub reevaluate_every_n_minutes: u32,
}

pub struct ConfigV {
    pub on_condition: JsonV,
    pub off_behavior: CriteriaOffBehavior,
    pub off_condition: Option<JsonV>,
    pub reevaluate_every_n_minutes: nat,
}

pub open spec fn opt_json_view(o: Option<Json>) -> Option<JsonV> {
    match o {
        Some(j) => Some(j@),
        None => None,
    }
}

impl View for CriteriaModeConfig {
    type V = ConfigV;

    open spec fn view(&self) -> ConfigV {
        ConfigV {
            on_condition: self.on_condition@,
            off_behavior: self.off_behavior,
            off_condition: opt_json_view(self.off_condition),
            reevaluate_every_n_minutes: self.reevaluate_every_n_minutes as nat,
        }
    }
}

/// The editor's whole draft.
pub struct CriteriaBuilderState {
    pub on_logic: CriteriaLogic,
    pub on_clauses: Vec<CriterionDraft>,
    pub off_behavior: CriteriaOffBehavior,
    pub off_logic: CriteriaLogic,
    pub off_clauses: Vec<CriterionDraft>,
    pub reevaluate_every_n_minutes: u32,
}

pub struct BuilderV {
    pub on_logic: CriteriaLogic,
    pub on_clauses: Seq<DraftV>,
    pub off_behavior: CriteriaOffBehavior,
    pub off_logic: CriteriaLogic,
    pub off_clauses: Seq<DraftV>,
    pub reevaluate_every_n_minutes: nat,
}

impl View for CriteriaBuilderState {
    type V = BuilderV;

    open spec fn view(&self) -> BuilderV {
        BuilderV {
            on_logic: self.on_logic,
            on_clauses: drafts_view(self.on_clauses@),
            off_behavior: self.off_behavior,
            off_logic: self.off_logic,
            off_clauses: drafts_view(self.off_clauses@),
            reevaluate_every_n_minutes: self.reevaluate_every_n_minutes as nat,
        }
    }
}

/// The forms that a typed value text takes in other parsers: its `f64`
/// parse as a JSON number, and its parse as JSON text. Each is `None` where
/// that parse fails.
pub struct ValueTextForms {
    pub float_form: Option<Json>,
    pub json_form: Option<Json>,
}

pub struct FormsV {
    pub float_form: Option<JsonV>,
    pub json_form: Option<JsonV>,
}

impl View for ValueTextForms {
    type V = FormsV;

    open spec fn view(&self) -> FormsV {
        FormsV { float_form: opt_json_view(self.float_form), json_form: opt_json_view(self.json_form) }
    }
}

pub open spec fn forms_view(fs: Seq<ValueTextForms>) -> Seq<FormsV> {
    Seq::new(fs.len(), |i: int| fs[i]@)
}

// ── Specification ────────────────────────────────────────────────────────────
pub open spec fn logic_type_text(l: CriteriaLogic) -> Seq<char> {
    match l {
        CriteriaLogic::All => "and"@,
        CriteriaLogic::Any => "or"@,
    }
}

pub open spec fn blank_device_state_v() -> DraftV {
    DraftV::DeviceState { device_id: Seq::empty(), attribute: Seq::empty(), op: "eq"@, value_text: Seq::empty() }
}

pub open spec fn blank_mode_is_v() -> DraftV {
    DraftV::ModeIs { mode_id: Seq::empty(), on: true }
}

/// How a saved value is shown in the clause's value box.
pub open spec fn value_text_of(v: JsonV) -> Seq<char> {
    match v {
        JsonV::Str(t) => t,
        JsonV::Null => "null"@,
        JsonV::Bool(b) => if b {
            "true"@
        } else {
            "false"@
        },
        JsonV::Num(n) => num_text(n),
        _ => compact(v),
    }
}

/// The clause a saved condition object stands for, or why it cannot be edited inline.
pub open spec fn clause_from(v: JsonV) -> Result<DraftV, Seq<char>> {
    if !v.is_object() {
        Err("Criteria clause must be an object."@)
    } else {
        match str_at(v, "type"@) {
            Some(t) => if t == "device_state"@ {
                Ok(
                    DraftV::DeviceState {
                        device_id: str_at_or(v, "device_id"@, ""@),
                        attribute: str_at_or(v, "attribute"@, ""@),
                        op: str_at_or(v, "op"@, "eq"@),
                        value_text: match v.get("value"@) {
                            Some(x) => value_text_of(x),
                            None => ""@,
                        },
                    },
                )
            } else if t == "mode_is"@ {
                Ok(
                    DraftV::ModeIs {
                        mode_id: str_at_or(v, "mode_id"@, ""@),
                        on: match bool_at(v, "on"@) {
                            Some(b) => b,
                            None => true,
                        },
                    },
                )
            } else {
                Err("Unsupported criterion type '"@ + t + "' for inline editing."@)
            },
            None => Err("Criterion type is required."@),
        }
    }
}

/// The clauses of the first `n` items, or the first item's error.
pub open spec fn clauses_from(items: Seq<JsonV>, n: nat) -> Result<Seq<DraftV>, Seq<char>>
    decreases n,
{
    if n == 0 || n > items.len() {
        Ok(Seq::empty())
    } else {
        match clauses_from(items, (n - 1) as nat) {
            Err(e) => Err(e),
            Ok(ds) => match clause_from(items[n - 1]) {
                Ok(d) => Ok(ds.push(d)),
                Err(e) => Err(e),
            },
        }
    }
}

/// The group (logic and clauses) a saved condition stands for.
pub open spec fn group_from(v: JsonV) -> Result<(CriteriaLogic, Seq<DraftV>), Seq<char>> {
    if !v.is_object() {
        Err("Criteria group must be an object."@)
    } else {
        match str_at(v, "type"@) {
            Some(t) => if t == "and"@ || t == "or"@ {
                let logic = if t == "or"@ {
                    CriteriaLogic::Any
                } else {
                    CriteriaLogic::All
                };
                match v.at("conditions"@).as_array() {
                    None => Err("Grouped criteria must contain a conditions array."@),
                    Some(items) => if items.len() == 0 {
                        Err("Criteria group cannot be empty."@)
                    } else {
                        match clauses_from(items, items.len()) {
                            Ok(ds) => Ok((logic, ds)),
                            Err(e) => Err(e),
                        }
                    },
                }
            } else if t == "device_state"@ || t == "mode_is"@ {
                match clause_from(v) {
                    Ok(d) => Ok((CriteriaLogic::All, seq![d])),
                    Err(e) => Err(e),
                }
            } else {
                Err("Unsupported grouped criteria type '"@ + t + "' for inline editing."@)
            },
            None => Err("Criteria type is required."@),
        }
    }
}

pub open spec fn max1(n: nat) -> nat {
    if n < 1 {
        1
    } else {
        n
    }
}

/// The editor's draft for a saved configuration.
pub open spec fn builder_from(c: ConfigV) -> Result<BuilderV, Seq<char>> {
    match group_from(c.on_condition) {
        Err(e) => Err(e),
        Ok(on) => {
            let off: Result<(CriteriaLogic, Seq<DraftV>), Seq<char>> = match c.off_behavior {
                CriteriaOffBehavior::Inverse => Ok((CriteriaLogic::All, seq![blank_device_state_v()])),
                CriteriaOffBehavior::Explicit => match c.off_condition {
                    None => Err("Explicit off criteria is missing."@),
                    Some(oc) => group_from(oc),
                },
            };
            match off {
                Err(e) => Err(e),
                Ok(off) => Ok(
                    BuilderV {
                        on_logic: on.0,
                        on_clauses: on.1,
                        off_behavior: c.off_behavior,
                        off_logic: off.0,
                        off_clauses: off.1,
                        reevaluate_every_n_minutes: max1(c.reevaluate_every_n_minutes),
                    },
                ),
            }
        },
    }
}

/// The JSON value of an integer, as `json!(n)` makes it.
pub open spec fn int_json(n: int) -> JsonV {
    if n < 0 {
        JsonV::Num(NumV::NegInt(n))
    } else {
        JsonV::Num(NumV::PosInt(n as nat))
    }
}

pub open spec fn opens_json_text(t: Seq<char>) -> bool {
    t.len() > 0 && (t[0] == '{' || t[0] == '[' || t[0] == '"')
}

/// The value a typed value text stands for: the keywords `true`, `false` and
/// `null` in any ASCII case, an `i64`, a float when the text has a `.`,
/// JSON text when it opens like an object, array or string, and otherwise
/// the trimmed text itself.
pub open spec fn value_from_text(raw: Seq<char>, f: FormsV) -> JsonV {
    let t = trimmed(raw);
    if eq_ignore_ascii_case(t, "true"@) {
        JsonV::Bool(true)
    } else if eq_ignore_ascii_case(t, "false"@) {
        JsonV::Bool(false)
    } else if eq_ignore_ascii_case(t, "null"@) {
        JsonV::Null
    } else if parse_i64(t) is Some {
        int_json(parse_i64(t)->0)
    } else if f.float_form is Some && t.contains('.') {
        f.float_form->0
    } else if opens_json_text(t) && f.json_form is Some {
        f.json_form->0
    } else {
        JsonV::Str(t)
    }
}

/// The saved condition object for one clause, or why it cannot be saved.
pub open spec fn clause_json(d: DraftV, f: FormsV) -> Result<JsonV, Seq<char>> {
    match d {
        DraftV::DeviceState { device_id, attribute, op, value_text } => if trimmed(device_id).len()
            == 0 {
            Err("Select a device for each device-state criterion."@)
        } else if trimmed(attribute).len() == 0 {
            Err("Enter an attribute for each device-state criterion."@)
        } else if trimmed(value_text).len() == 0 {
            Err("Enter a value for each device-state criterion."@)
        } else {
            Ok(
                JsonV::Obj(
                    seq![
                        ("attribute"@, JsonV::Str(trimmed(attribute))),
                        ("device_id"@, JsonV::Str(trimmed(device_id))),
                        ("op"@, JsonV::Str(op)),
                        ("type"@, JsonV::Str("device_state"@)),
                        ("value"@, value_from_text(value_text, f)),
                    ],
                ),
            )
        },
        DraftV::ModeIs { mode_id, on } => if trimmed(mode_id).len() == 0 {
            Err("Select a mode for each mode criterion."@)
        } else {
            Ok(
                JsonV::Obj(
                    seq![
                        ("mode_id"@, JsonV::Str(trimmed(mode_id))),
                        ("on"@, JsonV::Bool(on)),
                        ("type"@, JsonV::Str("mode_is"@)),
                    ],
                ),
            )
        },
    }
}

/// The saved objects of the first `n` clauses, or the first clause's error.
pub open spec fn clauses_json(ds: Seq<DraftV>, fs: Seq<FormsV>, n: nat) -> Result<
    Seq<JsonV>,
    Seq<char>,
>
    decreases n,
{
    if n == 0 || n > ds.len() {
        Ok(Seq::empty())
    } else {
        match clauses_json(ds, fs, (n - 1) as nat) {
            Err(e) => Err(e),
            Ok(vs) => match clause_json(ds[n - 1], fs[n - 1]) {
                Ok(v) => Ok(vs.push(v)),
                Err(e) => Err(e),
            },
        }
    }
}

/// The saved condition for a group of clauses: the clause itself when there
/// is one, else an `and`/`or` object over all of them.
pub open spec fn condition_json(logic: CriteriaLogic, ds: Seq<DraftV>, fs: Seq<FormsV>) -> Result<
    JsonV,
    Seq<char>,
> {
    if ds.len() == 0 {
        Err("Add at least one criterion."@)
    } else {
        match clauses_json(ds, fs, ds.len()) {
            Err(e) => Err(e),
            Ok(vs) => if vs.len() == 1 {
                Ok(vs[0])
            } else {
                Ok(
                    JsonV::Obj(
                        seq![
                            ("conditions"@, JsonV::Arr(vs)),
                            ("type"@, JsonV::Str(logic_type_text(logic))),
                        ],
                    ),
                )
            },
        }
    }
}

/// The configuration that a draft saves as.
pub open spec fn config_from_builder(b: BuilderV, on_fs: Seq<FormsV>, off_fs: Seq<FormsV>) -> Result<
    ConfigV,
    Seq<char>,
> {
    match condition_json(b.on_logic, b.on_clauses, on_fs) {
        Err(e) => Err(e),
        Ok(on) => {
            let off: Result<Option<JsonV>, Seq<char>> = if b.off_behavior
                == CriteriaOffBehavior::Explicit {
                match condition_json(b.off_logic, b.off_clauses, off_fs) {
                    Ok(v) => Ok(Some(v)),
                    Err(e) => Err(e),
                }
            } else {
                Ok(None)
            };
            match off {
                Err(e) => Err(e),
                Ok(off) => Ok(
                    ConfigV {
                        on_condition: on,
                        off_behavior: b.off_behavior,
                        off_condition: off,
                        reevaluate_every_n_minutes: max1(b.reevaluate_every_n_minutes),
                    },
                ),
            }
        },
    }
}

pub open spec fn draft_result(r: Result<CriterionDraft, String>) -> Result<DraftV, Seq<char>> {
    match r {
        Ok(d) => Ok(d@),
        Err(e) => Err(e@),
    }
}

pub open spec fn json_result(r: Result<Json, String>) -> Result<JsonV, Seq<char>> {
    match r {
        Ok(j) => Ok(j@),
        Err(e) => Err(e@),
    }
}

// ── Drafts ───────────────────────────────────────────────────────────────────
impl CriteriaLogic {
    /// The condition type an `and`/`or` group is saved under.
    pub fn as_condition_type(self) -> (r: &'static str)
        ensures
            r@ == logic_type_text(self),
    {
        match self {
            CriteriaLogic::All => "and",
            CriteriaLogic::Any => "or",
        }
    }
}

impl CriterionDraft {
    /// A device-state clause with nothing filled in and `=` as its operator.
    pub fn blank_device_state() -> (r: Self)
        ensures
            r@ == blank_device_state_v(),
    {
        let d = CriterionDraft::DeviceState {
            device_id: owned(""),
            attribute: owned(""),
            op: owned("eq"),
            value_text: owned(""),
        };
        proof {
            reveal_strlit("");
            assert(""@ =~= Seq::<char>::empty());
        }
        d
    }

    /// A mode clause with no mode chosen, expecting the mode on.
    pub fn blank_mode_is() -> (r: Self)
        ensures
            r@ == blank_mode_is_v(),
    {
        let d = CriterionDraft::ModeIs { mode_id: owned(""), on: true };
        proof {
            reveal_strlit("");
            assert(""@ =~= Seq::<char>::empty());
        }
        d
    }

    /// The kind selector's value for this clause.
    pub fn kind_value(&self) -> (r: &'static str)
        ensures
            r@ == (if self@ is DeviceState {
                "device_state"@
            } else {
                "mode_is"@
            }),
    {
        match self {
            CriterionDraft::DeviceState { .. } => "device_state",
            CriterionDraft::ModeIs { .. } => "mode_is",
        }
    }

    /// A copy of the clause.
    pub fn duplicate(&self) -> (r: Self)
        ensures
            r@ == self@,
    {
        match self {
            CriterionDraft::DeviceState { device_id, attribute, op, value_text } => CriterionDraft::DeviceState {
                device_id: owned(device_id.as_str()),
                attribute: owned(attribute.as_str()),
                op: owned(op.as_str()),
                value_text: owned(value_text.as_str()),
            },
            CriterionDraft::ModeIs { mode_id, on } => CriterionDraft::ModeIs {
                mode_id: owned(mode_id.as_str()),
                on: *on,
            },
        }
    }
}

// ── Reading saved criteria ───────────────────────────────────────────────────
/// The text a saved value shows in the clause's value box.
pub fn value_to_text(value: &Json) -> (r: String)
    ensures
        r@ == value_text_of(value@),
{
    match value {
        Json::Str(t) => owned(t.as_str()),
        Json::Null => owned("null"),
        Json::Bool(b) => if *b {
            owned("true")
        } else {
            owned("false")
        },
        Json::Number(n) => crate::json::number_text(n),
        _ => compact_json(value),
    }
}

fn is_object(v: &Json) -> (r: bool)
    ensures
        r == v@.is_object(),
{
    match v {
        Json::Object(_) => true,
        _ => false,
    }
}

/// The clause a saved condition object stands for.
pub fn parse_clause_from_value(value: &Json) -> (r: Result<CriterionDraft, String>)
    ensures
        draft_result(r) == clause_from(value@),
{
    if !is_object(value) {
        return Err(owned("Criteria clause must be an object."));
    }
    match str_field(value, "type") {
        None => Err(owned("Criterion type is required.")),
        Some(t) => {
            if str_eq(t.as_str(), "device_state") {
                let device_id = str_field_or(value, "device_id", "");
                let attribute = str_field_or(value, "attribute", "");
                let op = str_field_or(value, "op", "eq");
                let value_text = match json_get(value, "value") {
                    Some(x) => value_to_text(x),
                    None => owned(""),
                };
                Ok(CriterionDraft::DeviceState { device_id, attribute, op, value_text })
            } else if str_eq(t.as_str(), "mode_is") {
                let mode_id = str_field_or(value, "mode_id", "");
                let on = match bool_field(value, "on") {
                    Some(b) => b,
                    None => true,
                };
                Ok(CriterionDraft::ModeIs { mode_id, on })
            } else {
                Err(concat3("Unsupported criterion type '", t.as_str(), "' for inline editing."))
            }
        },
    }
}

/// The group (logic and clauses) a saved condition stands for.
pub fn parse_group_from_value(value: &Json) -> (r: Result<(CriteriaLogic, Vec<CriterionDraft>), String>)
    ensures
        match r {
            Ok((logic, ds)) => group_from(value@) == Ok::<(CriteriaLogic, Seq<DraftV>), Seq<char>>((logic, drafts_view(ds@))),
            Err(e) => group_from(value@) == Err::<(CriteriaLogic, Seq<DraftV>), Seq<char>>(e@),
        },
{
    if !is_object(value) {
        return Err(owned("Criteria group must be an object."));
    }
    let t = match str_field(value, "type") {
        None => {
            return Err(owned("Criteria type is required."));
        },
        Some(t) => t,
    };
    if str_eq(t.as_str(), "and") || str_eq(t.as_str(), "or") {
        let logic = if str_eq(t.as_str(), "or") {
            CriteriaLogic::Any
        } else {
            CriteriaLogic::All
        };
        let conditions = json_get(value, "conditions");
        let items = match conditions {
            Some(Json::Array(items)) => items,
            _ => {
                return Err(owned("Grouped criteria must contain a conditions array."));
            },
        };
        proof {
            lemma_jv_items(*items, items.len() as nat);
        }
        let ghost iv = jv_items(*items, items.len() as nat);
        assert(value@.at("conditions"@).as_array() == Some(iv));
        if items.len() == 0 {
            return Err(owned("Criteria group cannot be empty."));
        }
        let mut out: Vec<CriterionDraft> = Vec::new();
        let mut i: usize = 0;
        assert(drafts_view(out@) =~= Seq::<DraftV>::empty());
        while i < items.len()
            invariant
                value@.is_object(),
                str_at(value@, "type"@) == Some(t@),
                t@ == "and"@ || t@ == "or"@,
                value@.at("conditions"@).as_array() == Some(iv),
                i <= items.len(),
                out.len() == i,
                iv == jv_items(*items, items.len() as nat),
                iv.len() == items.len(),
                forall|k: int| 0 <= k < items.len() ==> #[trigger] iv[k] == jv(items[k]),
                clauses_from(iv, i as nat) == Ok::<Seq<DraftV>, Seq<char>>(drafts_view(out@)),
            decreases items.len() - i,
        {
            let parsed = parse_clause_from_value(&items[i]);
            match parsed {
                Ok(d) => {
                    let ghost before = out@;
                    out.push(d);
                    assert(drafts_view(out@) =~= drafts_view(before).push(out@[i as int]@));
                },
                Err(e) => {
                    assert(clauses_from(iv, (i + 1) as nat) == Err::<Seq<DraftV>, Seq<char>>(e@));
                    proof {
                        lemma_clauses_from_err_sticks(iv, (i + 1) as nat, iv.len());
                    }
                    return Err(e);
                },
            }
            i = i + 1;
        }
        Ok((logic, out))
    } else if str_eq(t.as_str(), "device_state") || str_eq(t.as_str(), "mode_is") {
        match parse_clause_from_value(value) {
            Ok(d) => {
                let mut out: Vec<CriterionDraft> = Vec::new();
                out.push(d);
                assert(drafts_view(out@) =~= seq![out@[0]@]);
                Ok((CriteriaLogic::All, out))
            },
            Err(e) => Err(e),
        }
    } else {
        Err(concat3("Unsupported grouped criteria type '", t.as_str(), "' for inline editing."))
    }
}

/// The editor's draft for a saved configuration.
pub fn builder_from_criteria(criteria: &CriteriaModeConfig) -> (r: Result<CriteriaBuilderState, String>)
    ensures
        match r {
            Ok(b) => builder_from(criteria@) == Ok::<BuilderV, Seq<char>>(b@),
            Err(e) => builder_from(criteria@) == Err::<BuilderV, Seq<char>>(e@),
        },
{
    let (on_logic, on_clauses) = match parse_group_from_value(&criteria.on_condition) {
        Ok(g) => g,
        Err(e) => {
            return Err(e);
        },
    };
    let (off_logic, off_clauses) = match criteria.off_behavior {
        CriteriaOffBehavior::Inverse => {
            let mut v: Vec<CriterionDraft> = Vec::new();
            v.push(CriterionDraft::blank_device_state());
            assert(drafts_view(v@) =~= seq![blank_device_state_v()]);
            (CriteriaLogic::All, v)
        },
        CriteriaOffBehavior::Explicit => {
            match &criteria.off_condition {
                None => {
                    return Err(owned("Explicit off criteria is missing."));
                },
                Some(off_condition) => match parse_group_from_value(off_condition) {
                    Ok(g) => g,
                    Err(e) => {
                        return Err(e);
                    },
                },
            }
        },
    };
    let n = if criteria.reevaluate_every_n_minutes < 1 {
        1
    } else {
        criteria.reevaluate_every_n_minutes
    };
    Ok(
        CriteriaBuilderState {
            on_logic,
            on_clauses,
            off_behavior: criteria.off_behavior,
            off_logic,
            off_clauses,
            reevaluate_every_n_minutes: n,
        },
    )
}

// ── Saving drafts ────────────────────────────────────────────────────────────
pub fn int_value(n: i64) -> (r: Json)
    ensures
        r@ == int_json(n as int),
{
    if n < 0 {
        Json::Number(JsonNumber::NegInt(n))
    } else {
        Json::Number(JsonNumber::PosInt(n as u64))
    }
}

/// The value a typed value text stands for (see `value_from_text`); `forms`
/// holds the float and JSON-text parses of the same text.
pub fn parse_value_text(raw: &str, forms: &ValueTextForms) -> (r: Json)
    ensures
        r@ == value_from_text(raw@, forms@),
{
    let t = trim_chars(&chars_of(raw));
    if ascii_case_eq(&t, "true") {
        return Json::Bool(true);
    }
    if ascii_case_eq(&t, "false") {
        return Json::Bool(false);
    }
    if ascii_case_eq(&t, "null") {
        return Json::Null;
    }
    match parse_i64_chars(&t) {
        Some(n) => {
            return int_value(n);
        },
        None => {},
    }
    if has_char(&t, '.') {
        match &forms.float_form {
            Some(f) => {
                return deep_clone(f);
            },
            None => {},
        }
    }
    let opens = t.len() > 0 && (t[0] == '{' || t[0] == '[' || t[0] == '"');
    if opens {
        match &forms.json_form {
            Some(j) => {
                return deep_clone(j);
            },
            None => {},
        }
    }
    Json::Str(string_of(&t))
}

/// The saved condition object for one clause.
pub fn build_clause_value(clause: &CriterionDraft, forms: &ValueTextForms) -> (r: Result<Json, String>)
    ensures
        json_result(r) == clause_json(clause@, forms@),
{
    match clause {
        CriterionDraft::DeviceState { device_id, attribute, op, value_text } => {
            let device = trim(device_id.as_str());
            if device.as_str().unicode_len() == 0 {
                return Err(owned("Select a device for each device-state criterion."));
            }
            let attr = trim(attribute.as_str());
            if attr.as_str().unicode_len() == 0 {
                return Err(owned("Enter an attribute for each device-state criterion."));
            }
            let vt = trim(value_text.as_str());
            if vt.as_str().unicode_len() == 0 {
                return Err(owned("Enter a value for each device-state criterion."));
            }
            let value = parse_value_text(value_text.as_str(), forms);
            let entries = vec![
                (owned("attribute"), json_string(attr.as_str())),
                (owned("device_id"), json_string(device.as_str())),
                (owned("op"), json_string(op.as_str())),
                (owned("type"), json_string("device_state")),
                (owned("value"), value),
            ];
            let r = make_object(entries);
            assert(entries_view(entries@) =~= seq![
                ("attribute"@, JsonV::Str(trimmed(attribute@))),
                ("device_id"@, JsonV::Str(trimmed(device_id@))),
                ("op"@, JsonV::Str(op@)),
                ("type"@, JsonV::Str("device_state"@)),
                ("value"@, value_from_text(value_text@, forms@)),
            ]);
            Ok(r)
        },
        CriterionDraft::ModeIs { mode_id, on } => {
            let mode = trim(mode_id.as_str());
            if mode.as_str().unicode_len() == 0 {
                return Err(owned("Select a mode for each mode criterion."));
            }
            let entries = vec![
                (owned("mode_id"), json_string(mode.as_str())),
                (owned("on"), Json::Bool(*on)),
                (owned("type"), json_string("mode_is")),
            ];
            let r = make_object(entries);
            assert(entries_view(entries@) =~= seq![
                ("mode_id"@, JsonV::Str(trimmed(mode_id@))),
                ("on"@, JsonV::Bool(*on)),
                ("type"@, JsonV::Str("mode_is"@)),
            ]);
            Ok(r)
        },
    }
}

/// Once the first `n` clauses hold an unsaveable one, so do the first `m`.
proof fn lemma_clauses_json_err_sticks(ds: Seq<DraftV>, fs: Seq<FormsV>, n: nat, m: nat)
    requires
        n <= m <= ds.len(),
        clauses_json(ds, fs, n) is Err,
    ensures
        clauses_json(ds, fs, m) == clauses_json(ds, fs, n),
    decreases m - n,
{
    if m > n {
        lemma_clauses_json_err_sticks(ds, fs, n, (m - 1) as nat);
    }
}

/// The saved condition for a group of clauses; `forms[i]` holds the parses
/// of `clauses[i]`'s value text.
pub fn build_condition_value(logic: CriteriaLogic, clauses: &Vec<CriterionDraft>, forms: &Vec<ValueTextForms>) -> (r: Result<Json, String>)
    requires
        forms.len() == clauses.len(),
    ensures
        json_result(r) == condition_json(logic, drafts_view(clauses@), forms_view(forms@)),
{
    let ghost ds = drafts_view(clauses@);
    let ghost fs = forms_view(forms@);
    if clauses.len() == 0 {
        return Err(owned("Add at least one criterion."));
    }
    let mut built: Vec<Json> = Vec::new();
    let mut i: usize = 0;
    assert(items_view(built@) =~= Seq::<JsonV>::empty());
    while i < clauses.len()
        invariant
            forms.len() == clauses.len(),
            ds == drafts_view(clauses@),
            fs == forms_view(forms@),
            i <= clauses.len(),
            built.len() == i,
            clauses_json(ds, fs, i as nat) == Ok::<Seq<JsonV>, Seq<char>>(items_view(built@)),
        decreases clauses.len() - i,
    {
        match build_clause_value(&clauses[i], &forms[i]) {
            Ok(v) => {
                let ghost before = built@;
                built.push(v);
                assert(items_view(built@) =~= items_view(before).push(built@[i as int]@));
            },
            Err(e) => {
                assert(clauses_json(ds, fs, (i + 1) as nat) == Err::<Seq<JsonV>, Seq<char>>(e@));
                proof {
                    lemma_clauses_json_err_sticks(ds, fs, (i + 1) as nat, ds.len());
                }
                return Err(e);
            },
        }
        i = i + 1;
    }
    if built.len() == 1 {
        let first = built.pop().unwrap();
        return Ok(first);
    }
    let entries = vec![
        (owned("conditions"), make_array(built)),
        (owned("type"), json_string(logic.as_condition_type())),
    ];
    let r = make_object(entries);
    assert(entries_view(entries@) =~= seq![
        ("conditions"@, JsonV::Arr(items_view(built@))),
        ("type"@, JsonV::Str(logic_type_text(logic))),
    ]);
    Ok(r)
}

/// The configuration a draft saves as; `on_forms` and `off_forms` hold the
/// parses of the on and off clauses' value texts.
pub fn build_criteria_config(builder: &CriteriaBuilderState, on_forms: &Vec<ValueTextForms>, off_forms: &Vec<ValueTextForms>) -> (r: Result<CriteriaModeConfig, String>)
    requires
        on_forms.len() == builder.on_clauses.len(),
        off_forms.len() == builder.off_clauses.len(),
    ensures
        match r {
            Ok(c) => config_from_builder(builder@, forms_view(on_forms@), forms_view(off_forms@)) == Ok::<ConfigV, Seq<char>>(c@),
            Err(e) => config_from_builder(builder@, forms_view(on_forms@), forms_view(off_forms@)) == Err::<ConfigV, Seq<char>>(e@),
        },
{
    let on_condition = match build_condition_value(builder.on_logic, &builder.on_clauses, on_forms) {
        Ok(v) => v,
        Err(e) => {
            return Err(e);
        },
    };
    let off_condition = if builder.off_behavior == CriteriaOffBehavior::Explicit {
        match build_condition_value(builder.off_logic, &builder.off_clauses, off_forms) {
            Ok(v) => Some(v),
            Err(e) => {
                return Err(e);
            },
        }
    } else {
        None
    };
    let n = if builder.reevaluate_every_n_minutes < 1 {
        1
    } else {
        builder.reevaluate_every_n_minutes
    };
    Ok(
        CriteriaModeConfig {
            on_condition,
            off_behavior: builder.off_behavior,
            off_condition,
            reevaluate_every_n_minutes: n,
        },
    )
}

// ── Editing a draft ──────────────────────────────────────────────────────────
/// One change the inline editor makes to a clause.
pub enum ClauseEdit {
    DeviceId(String),
    Attribute(String),
    Op(String),
    ValueText(String),
    ModeId(String),
    ModeOn(bool),
}

pub enum EditV {
    DeviceId(Seq<char>),
    Attribute(Seq<char>),
    Op(Seq<char>),
    ValueText(Seq<char>),
    ModeId(Seq<char>),
    ModeOn(bool),
}

impl View for ClauseEdit {
    type V = EditV;

    open spec fn view(&self) -> EditV {
        match self {
            ClauseEdit::DeviceId(s) => EditV::DeviceId(s@),
            ClauseEdit::Attribute(s) => EditV::Attribute(s@),
            ClauseEdit::Op(s) => EditV::Op(s@),
            ClauseEdit::ValueText(s) => EditV::ValueText(s@),
            ClauseEdit::ModeId(s) => EditV::ModeId(s@),
            ClauseEdit::ModeOn(b) => EditV::ModeOn(*b),
        }
    }
}

/// A clause after an edit; an edit of a field the clause lacks changes nothing.
pub open spec fn edited(d: DraftV, e: EditV) -> DraftV {
    match (d, e) {
        (DraftV::DeviceState { device_id, attribute, op, value_text }, EditV::DeviceId(x)) => DraftV::DeviceState {
            device_id: x,
            attribute,
            op,
            value_text,
        },
        (DraftV::DeviceState { device_id, attribute, op, value_text }, EditV::Attribute(x)) => DraftV::DeviceState {
            device_id,
            attribute: x,
            op,
            value_text,
        },
        (DraftV::DeviceState { device_id, attribute, op, value_text }, EditV::Op(x)) => DraftV::DeviceState {
            device_id,
            attribute,
            op: x,
            value_text,
        },
        (DraftV::DeviceState { device_id, attribute, op, value_text }, EditV::ValueText(x)) => DraftV::DeviceState {
            device_id,
            attribute,
            op,
            value_text: x,
        },
        (DraftV::ModeIs { mode_id, on }, EditV::ModeId(x)) => DraftV::ModeIs { mode_id: x, on },
        (DraftV::ModeIs { mode_id, on }, EditV::ModeOn(x)) => DraftV::ModeIs { mode_id, on: x },
        _ => d,
    }
}

/// Both clause lists hold at least one clause, as the editor always shows one.
pub open spec fn builder_wf(b: BuilderV) -> bool {
    b.on_clauses.len() >= 1 && b.off_clauses.len() >= 1
}

pub open spec fn section_clauses(b: BuilderV, section: CriteriaSection) -> Seq<DraftV> {
    match section {
        CriteriaSection::On => b.on_clauses,
        CriteriaSection::Off => b.off_clauses,
    }
}

pub open spec fn section_logic(b: BuilderV, section: CriteriaSection) -> CriteriaLogic {
    match section {
        CriteriaSection::On => b.on_logic,
        CriteriaSection::Off => b.off_logic,
    }
}

/// `b` with one section's clause list replaced.
pub open spec fn with_clauses(b: BuilderV, section: CriteriaSection, cs: Seq<DraftV>) -> BuilderV {
    match section {
        CriteriaSection::On => BuilderV { on_clauses: cs, ..b },
        CriteriaSection::Off => BuilderV { off_clauses: cs, ..b },
    }
}

/// The clause list after the remove button of clause `index`: the clause goes,
/// unless it is the only one, which is blanked instead.
pub open spec fn after_remove(cs: Seq<DraftV>, index: int) -> Seq<DraftV> {
    if cs.len() > 1 {
        cs.remove(index)
    } else {
        seq![blank_device_state_v()]
    }
}

/// A clause of the kind the kind selector names: `mode_is` or else device state.
pub open spec fn blank_of_kind(kind: Seq<char>) -> DraftV {
    if kind == "mode_is"@ {
        blank_mode_is_v()
    } else {
        blank_device_state_v()
    }
}

fn clauses_mut(b: &mut CriteriaBuilderState, section: CriteriaSection) -> (r: &mut Vec<CriterionDraft>)
    ensures
        *r == match section {
            CriteriaSection::On => old(b).on_clauses,
            CriteriaSection::Off => old(b).off_clauses,
        },
        match section {
            CriteriaSection::On => *final(b) == (CriteriaBuilderState { on_clauses: *final(r), ..*old(b) }),
            CriteriaSection::Off => *final(b) == (CriteriaBuilderState { off_clauses: *final(r), ..*old(b) }),
        },
{
    match section {
        CriteriaSection::On => &mut b.on_clauses,
        CriteriaSection::Off => &mut b.off_clauses,
    }
}

fn apply_edit(d: &CriterionDraft, e: &ClauseEdit) -> (r: CriterionDraft)
    ensures
        r@ == edited(d@, e@),
{
    match (d, e) {
        (CriterionDraft::DeviceState { attribute, op, value_text, .. }, ClauseEdit::DeviceId(x)) => CriterionDraft::DeviceState {
            device_id: owned(x.as_str()),
            attribute: owned(attribute.as_str()),
            op: owned(op.as_str()),
            value_text: owned(value_text.as_str()),
        },
        (CriterionDraft::DeviceState { device_id, op, value_text, .. }, ClauseEdit::Attribute(x)) => CriterionDraft::DeviceState {
            device_id: owned(device_id.as_str()),
            attribute: owned(x.as_str()),
            op: owned(op.as_str()),
            value_text: owned(value_text.as_str()),
        },
        (CriterionDraft::DeviceState { device_id, attribute, value_text, .. }, ClauseEdit::Op(x)) => CriterionDraft::DeviceState {
            device_id: owned(device_id.as_str()),
            attribute: owned(attribute.as_str()),
            op: owned(x.as_str()),
            value_text: owned(value_text.as_str()),
        },
        (CriterionDraft::DeviceState { device_id, attribute, op, .. }, ClauseEdit::ValueText(x)) => CriterionDraft::DeviceState {
            device_id: owned(device_id.as_str()),
            attribute: owned(attribute.as_str()),
            op: owned(op.as_str()),
            value_text: owned(x.as_str()),
        },
        (CriterionDraft::ModeIs { on, .. }, ClauseEdit::ModeId(x)) => CriterionDraft::ModeIs {
            mode_id: owned(x.as_str()),
            on: *on,
        },
        (CriterionDraft::ModeIs { mode_id, .. }, ClauseEdit::ModeOn(x)) => CriterionDraft::ModeIs {
            mode_id: owned(mode_id.as_str()),
            on: *x,
        },
        _ => d.duplicate(),
    }
}

impl CriteriaBuilderState {
    /// A fresh draft: one blank device-state clause on each side, `All`
    /// logic, off by inverse, reevaluated every minute.
    pub fn new_default() -> (r: Self)
        ensures
            r@ == (BuilderV {
                on_logic: CriteriaLogic::All,
                on_clauses: seq![blank_device_state_v()],
                off_behavior: CriteriaOffBehavior::Inverse,
                off_logic: CriteriaLogic::All,
                off_clauses: seq![blank_device_state_v()],
                reevaluate_every_n_minutes: 1,
            }),
            builder_wf(r@),
    {
        let mut on: Vec<CriterionDraft> = Vec::new();
        on.push(CriterionDraft::blank_device_state());
        let mut off: Vec<CriterionDraft> = Vec::new();
        off.push(CriterionDraft::blank_device_state());
        let r = CriteriaBuilderState {
            on_logic: CriteriaLogic::All,
            on_clauses: on,
            off_behavior: CriteriaOffBehavior::Inverse,
            off_logic: CriteriaLogic::All,
            off_clauses: off,
            reevaluate_every_n_minutes: 1,
        };
        assert(drafts_view(on@) =~= seq![blank_device_state_v()]);
        assert(drafts_view(off@) =~= seq![blank_device_state_v()]);
        r
    }

    /// The logic of one section.
    pub fn clause_logic(&self, section: CriteriaSection) -> (r: CriteriaLogic)
        ensures
            r == section_logic(self@, section),
    {
        match section {
            CriteriaSection::On => self.on_logic,
            CriteriaSection::Off => self.off_logic,
        }
    }

    /// A copy of one section's clauses.
    pub fn clause_list(&self, section: CriteriaSection) -> (r: Vec<CriterionDraft>)
        ensures
            drafts_view(r@) == section_clauses(self@, section),
    {
        let src = match section {
            CriteriaSection::On => &self.on_clauses,
            CriteriaSection::Off => &self.off_clauses,
        };
        let mut out: Vec<CriterionDraft> = Vec::new();
        let mut i: usize = 0;
        while i < src.len()
            invariant
                i <= src.len(),
                out.len() == i,
                forall|k: int| 0 <= k < i ==> #[trigger] out@[k]@ == src@[k]@,
            decreases src.len() - i,
        {
            out.push(src[i].duplicate());
            i = i + 1;
        }
        assert(drafts_view(out@) =~= drafts_view(src@));
        out
    }

    /// Sets the logic of one section.
    pub fn set_clause_logic(&mut self, section: CriteriaSection, logic: CriteriaLogic)
        ensures
            final(self)@ == (match section {
                CriteriaSection::On => (BuilderV { on_logic: logic, ..old(self)@ }),
                CriteriaSection::Off => (BuilderV { off_logic: logic, ..old(self)@ }),
            }),
            builder_wf(old(self)@) ==> builder_wf(final(self)@),
    {
        match section {
            CriteriaSection::On => self.on_logic = logic,
            CriteriaSection::Off => self.off_logic = logic,
        }
    }

    /// Sets how the mode turns off, from the selector's value.
    pub fn set_off_behavior(&mut self, value: &str)
        ensures
            final(self)@ == (BuilderV {
                off_behavior: if value@ == "explicit"@ {
                    CriteriaOffBehavior::Explicit
                } else {
                    CriteriaOffBehavior::Inverse
                },
                ..old(self)@
            }),
            builder_wf(old(self)@) ==> builder_wf(final(self)@),
    {
        self.off_behavior = if str_eq(value, "explicit") {
            CriteriaOffBehavior::Explicit
        } else {
            CriteriaOffBehavior::Inverse
        };
    }

    /// Appends a blank clause of the given kind to one section.
    pub fn add_clause(&mut self, section: CriteriaSection, mode_clause: bool)
        ensures
            final(self)@ == with_clauses(
                old(self)@,
                section,
                section_clauses(old(self)@, section).push(
                    if mode_clause {
                        blank_mode_is_v()
                    } else {
                        blank_device_state_v()
                    },
                ),
            ),
            builder_wf(old(self)@) ==> builder_wf(final(self)@),
    {
        let d = if mode_clause {
            CriterionDraft::blank_mode_is()
        } else {
            CriterionDraft::blank_device_state()
        };
        let clauses = clauses_mut(self, section);
        let ghost before = clauses@;
        clauses.push(d);
        proof {
            assert(drafts_view(clauses@) =~= drafts_view(before).push(d@));
        }
    }

    /// The remove button of clause `index`.
    pub fn remove_clause(&mut self, section: CriteriaSection, index: usize)
        requires
            section_clauses(old(self)@, section).len() <= 1 || index < section_clauses(old(self)@, section).len(),
        ensures
            final(self)@ == with_clauses(old(self)@, section, after_remove(section_clauses(old(self)@, section), index as int)),
            builder_wf(old(self)@) ==> builder_wf(final(self)@),
    {
        let clauses = clauses_mut(self, section);
        let ghost before = clauses@;
        assert(drafts_view(before).len() == before.len());
        if clauses.len() > 1 {
            clauses.remove(index);
            proof {
                assert(drafts_view(clauses@) =~= drafts_view(before).remove(index as int));
            }
        } else {
            clauses.clear();
            clauses.push(CriterionDraft::blank_device_state());
            proof {
                assert(drafts_view(clauses@) =~= seq![blank_device_state_v()]);
            }
        }
    }

    /// The kind selector of clause `index`: the clause becomes a blank one of
    /// the chosen kind. Out-of-range indices change nothing.
    pub fn set_clause_kind(&mut self, section: CriteriaSection, index: usize, kind: &str)
        ensures
            final(self)@ == (if index < section_clauses(old(self)@, section).len() {
                with_clauses(old(self)@, section, section_clauses(old(self)@, section).update(index as int, blank_of_kind(kind@)))
            } else {
                old(self)@
            }),
            builder_wf(old(self)@) ==> builder_wf(final(self)@),
    {
        let d = if str_eq(kind, "mode_is") {
            CriterionDraft::blank_mode_is()
        } else {
            CriterionDraft::blank_device_state()
        };
        let clauses = clauses_mut(self, section);
        let ghost before = clauses@;
        if index < clauses.len() {
            clauses.set(index, d);
            proof {
                assert(drafts_view(clauses@) =~= drafts_view(before).update(index as int, d@));
            }
        }
    }

    /// One field edit of clause `index`. Out-of-range indices, and edits of a
    /// field the clause lacks, change nothing.
    pub fn edit_clause(&mut self, section: CriteriaSection, index: usize, edit: &ClauseEdit)
        ensures
            final(self)@ == (if index < section_clauses(old(self)@, section).len() {
                with_clauses(old(self)@, section, section_clauses(old(self)@, section).update(index as int, edited(section_clauses(old(self)@, section)[index as int], edit@)))
            } else {
                old(self)@
            }),
            builder_wf(old(self)@) ==> builder_wf(final(self)@),
    {
        let clauses = clauses_mut(self, section);
        let ghost before = clauses@;
        if index < clauses.len() {
            let d = apply_edit(&clauses[index], edit);
            clauses.set(index, d);
            proof {
                assert(drafts_view(clauses@) =~= drafts_view(before).update(index as int, d@));
            }
        }
    }

    /// The reevaluation box: a positive `u32` is taken, anything else gives 1.
    pub fn set_reevaluate_minutes(&mut self, text: &str)
        ensures
            final(self)@ == (BuilderV {
                reevaluate_every_n_minutes: match parse_u32(text@) {
                    Some(n) => if n > 0 {
                        n
                    } else {
                        1
                    },
                    None => 1,
                },
                ..old(self)@
            }),
            builder_wf(old(self)@) ==> builder_wf(final(self)@),
    {
        let n = match parse_u32_chars(&chars_of(text)) {
            Some(n) => if n > 0 {
                n
            } else {
                1
            },
            None => 1,
        };
        self.reevaluate_every_n_minutes = n;
    }
}

/// Drafts read back from a saved configuration are well formed.
pub proof fn law_builder_from_wf(c: ConfigV)
    requires
        builder_from(c) is Ok,
    ensures
        builder_wf(builder_from(c)->Ok_0),
{
    lemma_group_from_nonempty(c.on_condition);
    match c.off_condition {
        Some(oc) => lemma_group_from_nonempty(oc),
        None => {},
    }
}

proof fn lemma_clauses_from_len(items: Seq<JsonV>, n: nat)
    requires
        n <= items.len(),
        clauses_from(items, n) is Ok,
    ensures
        clauses_from(items, n)->Ok_0.len() == n,
    decreases n,
{
    if n > 0 {
        lemma_clauses_from_len(items, (n - 1) as nat);
    }
}

proof fn lemma_group_from_nonempty(v: JsonV)
    ensures
        group_from(v) is Ok ==> group_from(v)->Ok_0.1.len() >= 1,
{
    if group_from(v) is Ok {
        match v.at("conditions"@).as_array() {
            Some(items) => if items.len() > 0 && clauses_from(items, items.len()) is Ok {
                lemma_clauses_from_len(items, items.len());
            },
            None => {},
        }
    }
}

// ── Laws ─────────────────────────────────────────────────────────────────────
/// What a clause reads back as once saved: ids trimmed, and the value text as
/// the value box shows the value it was saved as.
pub open spec fn normalized(d: DraftV, f: FormsV) -> DraftV {
    match d {
        DraftV::DeviceState { device_id, attribute, op, value_text } => DraftV::DeviceState {
            device_id: trimmed(device_id),
            attribute: trimmed(attribute),
            op: op,
            value_text: value_text_of(value_from_text(value_text, f)),
        },
        DraftV::ModeIs { mode_id, on } => DraftV::ModeIs { mode_id: trimmed(mode_id), on: on },
    }
}

pub open spec fn normalized_all(ds: Seq<DraftV>, fs: Seq<FormsV>) -> Seq<DraftV> {
    Seq::new(ds.len(), |i: int| normalized(ds[i], fs[i]))
}

proof fn lemma_clause_roundtrip(d: DraftV, f: FormsV)
    requires
        clause_json(d, f) is Ok,
    ensures
        clause_from(clause_json(d, f)->Ok_0) == Ok::<DraftV, Seq<char>>(normalized(d, f)),
        clause_json(d, f)->Ok_0.is_object(),
        str_at(clause_json(d, f)->Ok_0, "type"@) == Some(
            if d is DeviceState {
                "device_state"@
            } else {
                "mode_is"@
            },
        ),
{
    reveal_strlit("attribute");
    reveal_strlit("device_id");
    reveal_strlit("op");
    reveal_strlit("type");
    reveal_strlit("value");
    reveal_strlit("mode_id");
    reveal_strlit("on");
    reveal_strlit("device_state");
    reveal_strlit("mode_is");
    assert("attribute"@.len() == 9);
    assert("device_id"@.len() == 9);
    assert("device_id"@[0] == 'd');
    assert("attribute"@[0] == 'a');
    assert("op"@.len() == 2);
    assert("type"@.len() == 4);
    assert("value"@.len() == 5);
    assert("mode_id"@.len() == 7);
    assert("on"@.len() == 2);
    assert("device_state"@.len() == 12);
    assert("mode_is"@.len() == 7);
    let v = clause_json(d, f)->Ok_0;
    match d {
        DraftV::DeviceState { device_id, attribute, op, value_text } => {
            let es = seq![
                ("attribute"@, JsonV::Str(trimmed(attribute))),
                ("device_id"@, JsonV::Str(trimmed(device_id))),
                ("op"@, JsonV::Str(op)),
                ("type"@, JsonV::Str("device_state"@)),
                ("value"@, value_from_text(value_text, f)),
            ];
            assert(v == JsonV::Obj(es));
            assert forall|i: int| 0 <= i < 4 implies es[i].0 != "value"@ && (i < 3 ==> es[i].0 != "type"@) && (i < 2 ==> es[i].0 != "op"@) && (i < 1 ==> es[i].0 != "device_id"@) by {
                if i == 0 {} else if i == 1 {} else if i == 2 {} else {}
            }
            lemma_get_at(es, "type"@, 3);
            lemma_get_at(es, "device_id"@, 1);
            lemma_get_at(es, "attribute"@, 0);
            lemma_get_at(es, "op"@, 2);
            lemma_get_at(es, "value"@, 4);
        },
        DraftV::ModeIs { mode_id, on } => {
            let es = seq![
                ("mode_id"@, JsonV::Str(trimmed(mode_id))),
                ("on"@, JsonV::Bool(on)),
                ("type"@, JsonV::Str("mode_is"@)),
            ];
            assert(v == JsonV::Obj(es));
            assert forall|i: int| 0 <= i < 2 implies es[i].0 != "type"@ && (i < 1 ==> es[i].0 != "on"@) by {
                if i == 0 {} else {}
            }
            lemma_get_at(es, "type"@, 2);
            lemma_get_at(es, "mode_id"@, 0);
            lemma_get_at(es, "on"@, 1);
        },
    }
}

/// A lookup finds the entry at `k` when no earlier entry has its key.
pub proof fn lemma_get_at(es: Seq<(Seq<char>, JsonV)>, key: Seq<char>, k: int)
    requires
        0 <= k < es.len(),
        es[k].0 == key,
        forall|i: int| 0 <= i < k ==> es[i].0 != key,
    ensures
        entries_get_from(es, key, 0) == Some(es[k].1),
{
    lemma_get_from(es, key, 0, k);
}

proof fn lemma_get_from(es: Seq<(Seq<char>, JsonV)>, key: Seq<char>, i: int, k: int)
    requires
        0 <= i <= k < es.len(),
        es[k].0 == key,
        forall|j: int| i <= j < k ==> es[j].0 != key,
    ensures
        entries_get_from(es, key, i) == Some(es[k].1),
    decreases k - i,
{
    if i < k {
        lemma_get_from(es, key, i + 1, k);
    }
}

proof fn lemma_clauses_from_prefix(a: Seq<JsonV>, b: Seq<JsonV>, k: nat)
    requires
        k <= a.len(),
        k <= b.len(),
        forall|i: int| 0 <= i < k ==> a[i] == b[i],
    ensures
        clauses_from(a, k) == clauses_from(b, k),
    decreases k,
{
    if k > 0 {
        lemma_clauses_from_prefix(a, b, (k - 1) as nat);
    }
}

proof fn lemma_clauses_roundtrip(ds: Seq<DraftV>, fs: Seq<FormsV>, n: nat)
    requires
        fs.len() == ds.len(),
        n <= ds.len(),
        clauses_json(ds, fs, n) is Ok,
    ensures
        clauses_json(ds, fs, n)->Ok_0.len() == n,
        clauses_from(clauses_json(ds, fs, n)->Ok_0, n) == Ok::<Seq<DraftV>, Seq<char>>(
            normalized_all(ds, fs).take(n as int),
        ),
        forall|i: int|
            0 <= i < n ==> clause_json(ds[i], fs[i]) == Ok::<JsonV, Seq<char>>(
                #[trigger] clauses_json(ds, fs, n)->Ok_0[i],
            ),
    decreases n,
{
    if n > 0 {
        let m = (n - 1) as nat;
        lemma_clauses_roundtrip(ds, fs, m);
        let prev = clauses_json(ds, fs, m)->Ok_0;
        let vs = clauses_json(ds, fs, n)->Ok_0;
        let v = clause_json(ds[m as int], fs[m as int])->Ok_0;
        assert(vs == prev.push(v));
        lemma_clause_roundtrip(ds[m as int], fs[m as int]);
        lemma_clauses_from_prefix(vs, prev, m);
        assert(normalized_all(ds, fs).take(n as int) =~= normalized_all(ds, fs).take(m as int).push(
            normalized(ds[m as int], fs[m as int]),
        ));
    } else {
        assert(normalized_all(ds, fs).take(0) =~= Seq::<DraftV>::empty());
    }
}

/// Saving a group of clauses and reading the saved condition back gives the
/// same clauses, each with its ids trimmed and its value text as the value
/// box shows the value it was saved as. A single clause is saved on its own,
/// so it reads back under the `All` logic.
pub proof fn law_condition_roundtrip(logic: CriteriaLogic, ds: Seq<DraftV>, fs: Seq<FormsV>)
    requires
        fs.len() == ds.len(),
        condition_json(logic, ds, fs) is Ok,
    ensures
        group_from(condition_json(logic, ds, fs)->Ok_0) == Ok::<(CriteriaLogic, Seq<DraftV>), Seq<char>>(
            (
                if ds.len() == 1 {
                    CriteriaLogic::All
                } else {
                    logic
                },
                normalized_all(ds, fs),
            ),
        ),
{
    reveal_strlit("conditions");
    reveal_strlit("type");
    reveal_strlit("and");
    reveal_strlit("or");
    reveal_strlit("device_state");
    reveal_strlit("mode_is");
    assert("conditions"@.len() == 10);
    assert("type"@.len() == 4);
    assert("device_state"@.len() == 12);
    assert("mode_is"@.len() == 7);
    assert("and"@.len() == 3);
    assert("or"@.len() == 2);
    lemma_clauses_roundtrip(ds, fs, ds.len());
    let vs = clauses_json(ds, fs, ds.len())->Ok_0;
    assert(normalized_all(ds, fs).take(ds.len() as int) =~= normalized_all(ds, fs));
    let v = condition_json(logic, ds, fs)->Ok_0;
    if ds.len() == 1 {
        lemma_clause_roundtrip(ds[0], fs[0]);
        assert(v == vs[0]);
        assert(seq![normalized(ds[0], fs[0])] =~= normalized_all(ds, fs));
    } else {
        let lt = logic_type_text(logic);
        let es = seq![("conditions"@, JsonV::Arr(vs)), ("type"@, JsonV::Str(lt))];
        assert(v == JsonV::Obj(es));
        lemma_get_at(es, "conditions"@, 0);
        assert(es[0].0 != "type"@);
        lemma_get_at(es, "type"@, 1);
        assert(str_at(v, "type"@) == Some(lt));
        assert(v.at("conditions"@).as_array() == Some(vs));
        assert(lt == "and"@ || lt == "or"@);
        assert(lt == "or"@ <==> logic == CriteriaLogic::Any);
    }
}

/// A clause group's logic as it reads back: a single clause reads back
/// under `All`.
pub open spec fn logic_read_back(logic: CriteriaLogic, ds: Seq<DraftV>) -> CriteriaLogic {
    if ds.len() == 1 {
        CriteriaLogic::All
    } else {
        logic
    }
}

/// Saving a draft's criteria and opening the saved configuration again
/// gives the draft back: each group's clauses normalised as in
/// `law_condition_roundtrip`, the re-evaluation period at least 1, and, for
/// inverse off criteria, the blank off clause the editor starts with.
pub proof fn law_config_roundtrip(b: BuilderV, on_fs: Seq<FormsV>, off_fs: Seq<FormsV>)
    requires
        on_fs.len() == b.on_clauses.len(),
        off_fs.len() == b.off_clauses.len(),
        config_from_builder(b, on_fs, off_fs) is Ok,
    ensures
        builder_from(config_from_builder(b, on_fs, off_fs)->Ok_0) == Ok::<BuilderV, Seq<char>>(
            BuilderV {
                on_logic: logic_read_back(b.on_logic, b.on_clauses),
                on_clauses: normalized_all(b.on_clauses, on_fs),
                off_behavior: b.off_behavior,
                off_logic: if b.off_behavior == CriteriaOffBehavior::Explicit {
                    logic_read_back(b.off_logic, b.off_clauses)
                } else {
                    CriteriaLogic::All
                },
                off_clauses: if b.off_behavior == CriteriaOffBehavior::Explicit {
                    normalized_all(b.off_clauses, off_fs)
                } else {
                    seq![blank_device_state_v()]
                },
                reevaluate_every_n_minutes: max1(b.reevaluate_every_n_minutes),
            },
        ),
{
    law_condition_roundtrip(b.on_logic, b.on_clauses, on_fs);
    if b.off_behavior == CriteriaOffBehavior::Explicit {
        law_condition_roundtrip(b.off_logic, b.off_clauses, off_fs);
    }
}

/// A clause already as it reads back: its ids trimmed and its value text as
/// the value box shows the value it stands for.
pub open spec fn is_normal(d: DraftV, f: FormsV) -> bool {
    match d {
        DraftV::DeviceState { device_id, attribute, op: _, value_text } => device_id == trimmed(device_id) && attribute
            == trimmed(attribute) && value_text == value_text_of(value_from_text(value_text, f)),
        DraftV::ModeIs { mode_id, on: _ } => mode_id == trimmed(mode_id),
    }
}

proof fn lemma_normal_all(ds: Seq<DraftV>, fs: Seq<FormsV>)
    requires
        fs.len() == ds.len(),
        forall|i: int| 0 <= i < ds.len() ==> #[trigger] is_normal(ds[i], fs[i]),
    ensures
        normalized_all(ds, fs) == ds,
{
    assert forall|i: int| 0 <= i < ds.len() implies #[trigger] normalized_all(ds, fs)[i] == ds[i] by {
        assert(is_normal(ds[i], fs[i]));
    }
    assert(normalized_all(ds, fs) =~= ds);
}

/// Saving clauses that are already as they read back, and reading the saved
/// condition back, gives the same clauses; a single clause is saved as the
/// clause's own object and reads back under `All`.
pub proof fn law_condition_roundtrip_exact(logic: CriteriaLogic, ds: Seq<DraftV>, fs: Seq<FormsV>)
    requires
        fs.len() == ds.len(),
        condition_json(logic, ds, fs) is Ok,
        forall|i: int| 0 <= i < ds.len() ==> #[trigger] is_normal(ds[i], fs[i]),
    ensures
        group_from(condition_json(logic, ds, fs)->Ok_0) == Ok::<(CriteriaLogic, Seq<DraftV>), Seq<char>>(
            (logic_read_back(logic, ds), ds),
        ),
        ds.len() == 1 ==> Ok::<JsonV, Seq<char>>(condition_json(logic, ds, fs)->Ok_0) == clause_json(ds[0], fs[0]),
{
    law_condition_roundtrip(logic, ds, fs);
    lemma_normal_all(ds, fs);
    lemma_clauses_roundtrip(ds, fs, ds.len());
    if ds.len() == 1 {
        let vs = clauses_json(ds, fs, 1)->Ok_0;
        assert(clause_json(ds[0], fs[0]) == Ok::<JsonV, Seq<char>>(vs[0]));
    }
}

/// Saving a draft whose clauses are already as they read back, and opening
/// the saved configuration again, gives the draft back: a single clause's
/// logic as `All`, the re-evaluation period at least 1, and for inverse off
/// criteria the blank off clause the editor starts with. The off condition
/// is saved exactly when the off criteria are explicit.
pub proof fn law_config_roundtrip_exact(b: BuilderV, on_fs: Seq<FormsV>, off_fs: Seq<FormsV>)
    requires
        on_fs.len() == b.on_clauses.len(),
        off_fs.len() == b.off_clauses.len(),
        config_from_builder(b, on_fs, off_fs) is Ok,
        forall|i: int| 0 <= i < b.on_clauses.len() ==> #[trigger] is_normal(b.on_clauses[i], on_fs[i]),
        b.off_behavior == CriteriaOffBehavior::Explicit ==> forall|i: int|
            0 <= i < b.off_clauses.len() ==> #[trigger] is_normal(b.off_clauses[i], off_fs[i]),
    ensures
        config_from_builder(b, on_fs, off_fs)->Ok_0.reevaluate_every_n_minutes == max1(b.reevaluate_every_n_minutes),
        (config_from_builder(b, on_fs, off_fs)->Ok_0.off_condition is Some) == (b.off_behavior
            == CriteriaOffBehavior::Explicit),
        builder_from(config_from_builder(b, on_fs, off_fs)->Ok_0) == Ok::<BuilderV, Seq<char>>(
            BuilderV {
                on_logic: logic_read_back(b.on_logic, b.on_clauses),
                on_clauses: b.on_clauses,
                off_behavior: b.off_behavior,
                off_logic: if b.off_behavior == CriteriaOffBehavior::Explicit {
                    logic_read_back(b.off_logic, b.off_clauses)
                } else {
                    CriteriaLogic::All
                },
                off_clauses: if b.off_behavior == CriteriaOffBehavior::Explicit {
                    b.off_clauses
                } else {
                    seq![blank_device_state_v()]
                },
                reevaluate_every_n_minutes: max1(b.reevaluate_every_n_minutes),
            },
        ),
{
    law_config_roundtrip(b, on_fs, off_fs);
    lemma_normal_all(b.on_clauses, on_fs);
    if b.off_behavior == CriteriaOffBehavior::Explicit {
        lemma_normal_all(b.off_clauses, off_fs);
    }
}

/// Once the first `n` items hold an unreadable clause, so do the first `m`.
proof fn lemma_clauses_from_err_sticks(items: Seq<JsonV>, n: nat, m: nat)
    requires
        n <= m <= items.len(),
        clauses_from(items, n) is Err,
    ensures
        clauses_from(items, m) == clauses_from(items, n),
    decreases m - n,
{
    if m > n {
        lemma_clauses_from_err_sticks(items, n, (m - 1) as nat);
    }
}

proof fn lemma_not_keyword(t: Seq<char>, k: Seq<char>)
    requires
        t.len() > 0,
        k.len() > 0,
        t[0] == '-' || is_ascii_digit(t[0]),
        'a' <= k[0] <= 'z',
    ensures
        !eq_ignore_ascii_case(t, k),
{
    if eq_ignore_ascii_case(t, k) {
        assert(ascii_lower_seq(t)[0] == ascii_lower_seq(k)[0]);
    }
}

proof fn lemma_keyword_clean(k: Seq<char>)
    requires
        forall|i: int| 0 <= i < k.len() ==> 'a' <= #[trigger] k[i] <= 'z',
    ensures
        trimmed(k) == k,
        eq_ignore_ascii_case(k, k),
{
    assert forall|i: int| 0 <= i < k.len() implies !is_ws(#[trigger] k[i]) by {
        assert('a' <= k[i] <= 'z');
    }
    lemma_trimmed_of_clean(k);
}

/// A value shown in a clause's value box reads back as itself where it is
/// `true`, `false`, `null` or an `i64`, whatever else the text could be
/// read as.
pub proof fn law_value_text_roundtrip(v: JsonV, f: FormsV)
    requires
        match v {
            JsonV::Null => true,
            JsonV::Bool(_) => true,
            JsonV::Num(NumV::PosInt(k)) => k <= i64::MAX,
            JsonV::Num(NumV::NegInt(k)) => i64::MIN <= k < 0,
            _ => false,
        },
    ensures
        value_from_text(value_text_of(v), f) == v,
{
    reveal_strlit("true");
    reveal_strlit("false");
    reveal_strlit("null");
    lemma_keyword_clean("true"@);
    lemma_keyword_clean("false"@);
    lemma_keyword_clean("null"@);
    match v {
        JsonV::Num(n) => {
            let k: int = match n {
                NumV::PosInt(k) => k as int,
                NumV::NegInt(k) => k,
                NumV::Float(_) => 0,
            };
            let t = int_decimal(k);
            assert(value_text_of(v) == t);
            crate::text::lemma_parse_int_decimal(k);
            crate::text::lemma_decimal_digits(if k < 0 { (-k) as nat } else { k as nat });
            assert(t[0] == '-' || is_ascii_digit(t[0]));
            assert forall|i: int| 0 <= i < t.len() implies !is_ws(#[trigger] t[i]) by {
                if k < 0 {
                    if i > 0 {
                        assert(t[i] == nat_decimal((-k) as nat)[i - 1]);
                        assert(is_ascii_digit(nat_decimal((-k) as nat)[i - 1]));
                    }
                } else {
                    assert(is_ascii_digit(t[i]));
                }
            }
            lemma_trimmed_of_clean(t);
            lemma_not_keyword(t, "true"@);
            lemma_not_keyword(t, "false"@);
            lemma_not_keyword(t, "null"@);
        },
        JsonV::Bool(b) => {
            if !b {
                assert(ascii_lower_seq("false"@) != ascii_lower_seq("true"@)) by {
                    assert(ascii_lower_seq("false"@).len() != ascii_lower_seq("true"@).len());
                }
            }
        },
        _ => {
            assert(ascii_lower_seq("null"@)[0] != ascii_lower_seq("true"@)[0]);
            assert(ascii_lower_seq("null"@)[0] != ascii_lower_seq("false"@)[0]);
        },
    }
}

/// The value a typed value text stands for (see `value_from_text`), with
/// the trimmed text read as JSON here; `float_form` is the text's `f64`
/// parse as a JSON number, where there is one.
pub fn value_text_json(raw: &str, float_form: Option<Json>) -> (r: Json)
    ensures
        r@ == value_from_text(
            raw@,
            FormsV { float_form: opt_json_view(float_form), json_form: crate::json::json_text_value(trimmed(raw@)) },
        ),
{
    let t = crate::text::trim(raw);
    let json_form = crate::json::parse_json(t.as_str());
    let forms = ValueTextForms { float_form, json_form };
    parse_value_text(raw, &forms)
}

} // verus!
