//! The modes page: one row per mode, its filters and orders, the card's
//! status line, and the checks made before a mode is created.
use vstd::prelude::*;
use crate::text::{
    str_eq, owned, lowercase, trim, chars_of, contains, join, join_strings, strings_view, list_has,
    unicode_lowercase, trimmed, contains_sub, concat2, string_of, push_str,
};
use crate::json::{Json, JsonV, make_object};
use crate::criteria::{
    CriteriaModeConfig, CriteriaBuilderState, ValueTextForms, ConfigV, config_from_builder,
    forms_view, build_criteria_config, CriteriaOffBehavior, int_value, int_json,
};
use crate::text::{parse_i64, parse_i64_chars, i64_decimal};
use crate::modes::{condition_summary, summary, parse_mode_id_input, mode_id_for, labels_view};
use crate::sort::{KeyPart, KeyPartV, key_view, keys_view, stable_sorted, sort_by_keys, lemma_sorted_map};

verus! {

// ── Sort keys ────────────────────────────────────────────────────────────────
/// What the mode list is ordered by.
#[derive(PartialEq, Eq, Structural, Clone, Copy, Debug)]
pub enum SortKey {
    Name,
    Type,
    Status,
    LastSeen,
}

/// The stored text of a sort key.
pub open spec fn sort_key_text(k: SortKey) -> Seq<char> {
    match k {
        SortKey::Name => "name"@,
        SortKey::Type => "type"@,
        SortKey::Status => "status"@,
        SortKey::LastSeen => "last_seen"@,
    }
}

/// The sort key a stored text names; anything else is `Name`.
pub open spec fn sort_key_of(v: Option<Seq<char>>) -> SortKey {
    match v {
        Some(t) => if t == "type"@ {
            SortKey::Type
        } else if t == "status"@ {
            SortKey::Status
        } else if t == "last_seen"@ {
            SortKey::LastSeen
        } else {
            SortKey::Name
        },
        None => SortKey::Name,
    }
}

pub open spec fn opt_str_view(v: Option<&str>) -> Option<Seq<char>> {
    match v {
        Some(t) => Some(t@),
        None => None,
    }
}

pub fn sort_key_from_str(value: Option<&str>) -> (r: SortKey)
    ensures
        r == sort_key_of(opt_str_view(value)),
{
    match value {
        Some(t) => if str_eq(t, "type") {
            SortKey::Type
        } else if str_eq(t, "status") {
            SortKey::Status
        } else if str_eq(t, "last_seen") {
            SortKey::LastSeen
        } else {
            SortKey::Name
        },
        None => SortKey::Name,
    }
}

pub fn sort_key_to_str(value: SortKey) -> (r: &'static str)
    ensures
        r@ == sort_key_text(value),
{
    match value {
        SortKey::Name => "name",
        SortKey::Type => "type",
        SortKey::Status => "status",
        SortKey::LastSeen => "last_seen",
    }
}

/// A stored sort key reads back as the key that was stored.
pub proof fn law_sort_key_roundtrip(k: SortKey)
    ensures
        sort_key_of(Some(sort_key_text(k))) == k,
{
    reveal_strlit("name");
    reveal_strlit("type");
    reveal_strlit("status");
    reveal_strlit("last_seen");
    assert("name"@.len() == 4);
    assert("type"@.len() == 4);
    assert("status"@.len() == 6);
    assert("last_seen"@.len() == 9);
    assert("name"@[0] != "type"@[0]);
}

// ── Flavours ─────────────────────────────────────────────────────────────────
/// How a mode is driven.
#[derive(PartialEq, Eq, Structural, Clone, Copy, Debug)]
pub enum ModeFlavor {
    Solar,
    Manual,
    Criteria,
}

pub open spec fn flavor_label(f: ModeFlavor) -> Seq<char> {
    match f {
        ModeFlavor::Solar => "Solar"@,
        ModeFlavor::Manual => "Manual"@,
        ModeFlavor::Criteria => "Criteria"@,
    }
}

pub open spec fn flavor_card_class(f: ModeFlavor) -> Seq<char> {
    match f {
        ModeFlavor::Solar => "mode-card--solar"@,
        ModeFlavor::Manual => "mode-card--manual"@,
        ModeFlavor::Criteria => "mode-card--criteria"@,
    }
}

/// The flavours in the order of their labels: Criteria, Manual, Solar.
pub open spec fn flavor_rank(f: ModeFlavor) -> int {
    match f {
        ModeFlavor::Criteria => 0,
        ModeFlavor::Manual => 1,
        ModeFlavor::Solar => 2,
    }
}

impl ModeFlavor {
    pub fn label(self) -> (r: &'static str)
        ensures
            r@ == flavor_label(self),
    {
        match self {
            ModeFlavor::Solar => "Solar",
            ModeFlavor::Manual => "Manual",
            ModeFlavor::Criteria => "Criteria",
        }
    }

    /// The value the type filter matches; the same text as the label.
    pub fn filter_value(self) -> (r: &'static str)
        ensures
            r@ == flavor_label(self),
    {
        match self {
            ModeFlavor::Solar => "Solar",
            ModeFlavor::Manual => "Manual",
            ModeFlavor::Criteria => "Criteria",
        }
    }

    pub fn card_class(self) -> (r: &'static str)
        ensures
            r@ == flavor_card_class(self),
    {
        match self {
            ModeFlavor::Solar => "mode-card--solar",
            ModeFlavor::Manual => "mode-card--manual",
            ModeFlavor::Criteria => "mode-card--criteria",
        }
    }
}

// ── Records ──────────────────────────────────────────────────────────────────
/// A moment as seconds and nanoseconds since the Unix epoch; moments order
/// as these pairs do.
#[derive(PartialEq, Eq, Structural, Clone, Copy, Debug)]
pub struct Moment {
    pub secs: i64,
    pub nanos: u32,
}

/// What the page reads of a mode's live state.
#[derive(PartialEq, Eq, Structural, Clone, Copy, Debug)]
pub struct ModeLiveState {
    pub is_on: bool,
    pub available: bool,
    pub last_change: Option<Moment>,
}

/// The criteria that drive a mode, and how many rules they generated.
pub struct ModeDefinition {
    pub criteria: CriteriaModeConfig,
    pub generated_rule_count: usize,
}

/// What the page reads of a mode.
pub struct ModeRecord {
    pub id: String,
    pub name: String,
    /// Whether the mode's kind is solar.
    pub is_solar: bool,
    pub on_offset_minutes: i32,
    pub off_offset_minutes: i32,
    pub definition: Option<ModeDefinition>,
    /// The state that came with the record, if any.
    pub state: Option<ModeLiveState>,
}

pub open spec fn is_builtin_id(id: Seq<char>) -> bool {
    id == "mode_day"@ || id == "mode_night"@
}

/// The built-in day and night modes.
pub fn is_builtin_mode(mode_id: &str) -> (r: bool)
    ensures
        r == is_builtin_id(mode_id@),
{
    str_eq(mode_id, "mode_day") || str_eq(mode_id, "mode_night")
}

/// A mode card offers Delete for manual and criteria modes that are not
/// built in; solar modes and the built-in day and night modes stay.
pub fn card_can_delete(flavor: ModeFlavor, mode_id: &str) -> (r: bool)
    ensures
        r == (flavor != ModeFlavor::Solar && !is_builtin_id(mode_id@)),
{
    flavor != ModeFlavor::Solar && !is_builtin_mode(mode_id)
}

pub open spec fn flavor_of(is_solar: bool, has_definition: bool) -> ModeFlavor {
    if is_solar {
        ModeFlavor::Solar
    } else if has_definition {
        ModeFlavor::Criteria
    } else {
        ModeFlavor::Manual
    }
}

pub fn mode_flavor(record: &ModeRecord) -> (r: ModeFlavor)
    ensures
        r == flavor_of(record.is_solar, record.definition is Some),
{
    if record.is_solar {
        ModeFlavor::Solar
    } else if record.definition.is_some() {
        ModeFlavor::Criteria
    } else {
        ModeFlavor::Manual
    }
}

/// The state of the first device entry with the given id.
pub open spec fn state_lookup(devices: Seq<(Seq<char>, ModeLiveState)>, id: Seq<char>) -> Option<
    ModeLiveState,
>
    decreases devices.len(),
{
    if devices.len() == 0 {
        None
    } else if devices[0].0 == id {
        Some(devices[0].1)
    } else {
        state_lookup(devices.drop_first(), id)
    }
}

pub open spec fn devices_view(devices: Seq<(String, ModeLiveState)>) -> Seq<(Seq<char>, ModeLiveState)> {
    Seq::new(devices.len(), |i: int| (devices[i].0@, devices[i].1))
}

/// The live state: the device list's entry for the mode, else the state that
/// came with the record.
pub open spec fn live_state_of(
    devices: Seq<(Seq<char>, ModeLiveState)>,
    id: Seq<char>,
    recorded: Option<ModeLiveState>,
) -> Option<ModeLiveState> {
    match state_lookup(devices, id) {
        Some(s) => Some(s),
        None => recorded,
    }
}

pub fn live_mode_state(record: &ModeRecord, devices: &Vec<(String, ModeLiveState)>) -> (r: Option<
    ModeLiveState,
>)
    ensures
        r == live_state_of(devices_view(devices@), record.id@, record.state),
{
    let ghost dv = devices_view(devices@);
    let mut i: usize = 0;
    assert(dv.skip(0) =~= dv);
    while i < devices.len()
        invariant
            i <= devices.len(),
            dv == devices_view(devices@),
            state_lookup(dv, record.id@) == state_lookup(dv.skip(i as int), record.id@),
        decreases devices.len() - i,
    {
        assert(dv.skip(i as int)[0] == dv[i as int]);
        if str_eq(devices[i].0.as_str(), record.id.as_str()) {
            return Some(devices[i].1);
        }
        assert(dv.skip(i as int).drop_first() =~= dv.skip(i + 1));
        i = i + 1;
    }
    match record.state {
        Some(s) => Some(s),
        None => None,
    }
}

// ── Rows ─────────────────────────────────────────────────────────────────────
/// One mode as the list shows, filters and orders it.
pub struct ModeRow {
    pub id: String,
    pub name: String,
    /// The name's sort key, as the caller's collation gives it.
    pub name_key: String,
    pub flavor: ModeFlavor,
    pub is_on: bool,
    pub available: bool,
    pub built_in: bool,
    pub last_seen: Option<Moment>,
    /// The lower-cased text that the search box matches.
    pub search_text: String,
}

pub struct ModeRowV {
    pub id: Seq<char>,
    pub name: Seq<char>,
    pub name_key: Seq<char>,
    pub flavor: ModeFlavor,
    pub is_on: bool,
    pub available: bool,
    pub built_in: bool,
    pub last_seen: Option<Moment>,
    pub search_text: Seq<char>,
}

impl View for ModeRow {
    type V = ModeRowV;

    open spec fn view(&self) -> ModeRowV {
        ModeRowV {
            id: self.id@,
            name: self.name@,
            name_key: self.name_key@,
            flavor: self.flavor,
            is_on: self.is_on,
            available: self.available,
            built_in: self.built_in,
            last_seen: self.last_seen,
            search_text: self.search_text@,
        }
    }
}

pub open spec fn rows_view(rows: Seq<ModeRow>) -> Seq<ModeRowV> {
    Seq::new(rows.len(), |i: int| rows[i]@)
}

pub open spec fn on_condition_of(d: Option<ModeDefinition>) -> Option<JsonV> {
    match d {
        Some(def) => Some(def.criteria.on_condition@),
        None => None,
    }
}

/// The words the search box looks in: name, id, type label, "built in" for
/// the built-in modes, and the summary of the turn-on criteria.
pub open spec fn search_parts(
    name: Seq<char>,
    id: Seq<char>,
    flavor: ModeFlavor,
    on_condition: Option<JsonV>,
) -> Seq<Seq<char>> {
    let base = seq![name, id, flavor_label(flavor)];
    let with_builtin = if is_builtin_id(id) {
        base.push("built in"@)
    } else {
        base
    };
    match on_condition {
        Some(c) => with_builtin.push(summary(c, Seq::empty(), Seq::empty())),
        None => with_builtin,
    }
}

/// The row of a mode with the given live state.
pub open spec fn row_of(
    id: Seq<char>,
    name: Seq<char>,
    name_key: Seq<char>,
    flavor: ModeFlavor,
    on_condition: Option<JsonV>,
    live: Option<ModeLiveState>,
) -> ModeRowV {
    ModeRowV {
        id,
        name,
        name_key,
        flavor,
        is_on: match live {
            Some(s) => s.is_on,
            None => false,
        },
        available: match live {
            Some(s) => s.available,
            None => true,
        },
        built_in: is_builtin_id(id),
        last_seen: match live {
            Some(s) => s.last_change,
            None => None,
        },
        search_text: unicode_lowercase(join(search_parts(name, id, flavor, on_condition), " "@)),
    }
}

/// The row of a mode: its live state comes from the device list, else from
/// the record; `name_key` is the name's sort key.
pub fn mode_row(record: &ModeRecord, devices: &Vec<(String, ModeLiveState)>, name_key: &str) -> (r: ModeRow)
    ensures
        r@ == row_of(
            record.id@,
            record.name@,
            name_key@,
            flavor_of(record.is_solar, record.definition is Some),
            on_condition_of(record.definition),
            live_state_of(devices_view(devices@), record.id@, record.state),
        ),
{
    let state = live_mode_state(record, devices);
    let flavor = mode_flavor(record);
    let is_on = match state {
        Some(s) => s.is_on,
        None => false,
    };
    let available = match state {
        Some(s) => s.available,
        None => true,
    };
    let last_seen = match state {
        Some(s) => s.last_change,
        None => None,
    };
    let built_in = is_builtin_mode(record.id.as_str());
    let mut parts: Vec<String> = Vec::new();
    parts.push(owned(record.name.as_str()));
    parts.push(owned(record.id.as_str()));
    parts.push(owned(flavor.label()));
    if built_in {
        parts.push(owned("built in"));
    }
    match &record.definition {
        Some(definition) => {
            let none: Vec<(String, String)> = Vec::new();
            proof {
                assert(crate::modes::labels_view(none@) =~= Seq::<(Seq<char>, Seq<char>)>::empty());
            }
            parts.push(condition_summary(&definition.criteria.on_condition, &none, &none));
        },
        None => {},
    }
    proof {
        assert(strings_view(parts@) =~= search_parts(
            record.name@,
            record.id@,
            flavor,
            on_condition_of(record.definition),
        ));
    }
    let joined = join_strings(&parts, " ");
    ModeRow {
        id: owned(record.id.as_str()),
        name: owned(record.name.as_str()),
        name_key: owned(name_key),
        flavor,
        is_on,
        available,
        built_in,
        last_seen,
        search_text: lowercase(joined.as_str()),
    }
}

impl ModeRow {
    /// A copy of the row.
    pub fn duplicate(&self) -> (r: Self)
        ensures
            r@ == self@,
    {
        ModeRow {
            id: owned(self.id.as_str()),
            name: owned(self.name.as_str()),
            name_key: owned(self.name_key.as_str()),
            flavor: self.flavor,
            is_on: self.is_on,
            available: self.available,
            built_in: self.built_in,
            last_seen: self.last_seen,
            search_text: owned(self.search_text.as_str()),
        }
    }
}

// ── Order ────────────────────────────────────────────────────────────────────
/// A row's sort key: by name; by type, then name; on before off, then name;
/// by last change, with no change first, then name.
pub open spec fn mode_key(r: ModeRowV, by: SortKey) -> Seq<KeyPartV> {
    match by {
        SortKey::Name => seq![KeyPartV::Text(r.name_key)],
        SortKey::Type => seq![KeyPartV::Int(flavor_rank(r.flavor)), KeyPartV::Text(r.name_key)],
        SortKey::Status => seq![KeyPartV::Int(if r.is_on { 0 } else { 1 }), KeyPartV::Text(r.name_key)],
        SortKey::LastSeen => match r.last_seen {
            None => seq![KeyPartV::Int(0), KeyPartV::Text(r.name_key)],
            Some(m) => seq![
                KeyPartV::Int(1),
                KeyPartV::Int(m.secs as int),
                KeyPartV::Int(m.nanos as int),
                KeyPartV::Text(r.name_key),
            ],
        },
    }
}

pub fn mode_sort_key(row: &ModeRow, by: SortKey) -> (r: Vec<KeyPart>)
    ensures
        key_view(r@) == mode_key(row@, by),
{
    let mut k: Vec<KeyPart> = Vec::new();
    match by {
        SortKey::Name => {},
        SortKey::Type => {
            let rank: i128 = match row.flavor {
                ModeFlavor::Criteria => 0,
                ModeFlavor::Manual => 1,
                ModeFlavor::Solar => 2,
            };
            k.push(KeyPart::Int(rank));
        },
        SortKey::Status => {
            k.push(KeyPart::Int(if row.is_on { 0 } else { 1 }));
        },
        SortKey::LastSeen => match row.last_seen {
            None => {
                k.push(KeyPart::Int(0));
            },
            Some(m) => {
                k.push(KeyPart::Int(1));
                k.push(KeyPart::Int(m.secs as i128));
                k.push(KeyPart::Int(m.nanos as i128));
            },
        },
    }
    k.push(KeyPart::Text(owned(row.name_key.as_str())));
    assert(key_view(k@) =~= mode_key(row@, by));
    k
}

// ── Filters ──────────────────────────────────────────────────────────────────
/// The search text as the list matches it: trimmed and lower-cased.
pub open spec fn mode_query(search: Seq<char>) -> Seq<char> {
    unicode_lowercase(trimmed(search))
}

pub open spec fn on_off_text(on: bool) -> Seq<char> {
    if on {
        "On"@
    } else {
        "Off"@
    }
}

/// Whether a row passes the search and the status and type selections; an
/// empty selection lets every row through.
pub open spec fn row_matches(r: ModeRowV, q: Seq<char>, status: Seq<Seq<char>>, types: Seq<Seq<char>>) -> bool {
    &&& (q.len() == 0 || contains_sub(r.search_text, q))
    &&& (status.len() == 0 || status.contains(on_off_text(r.is_on)))
    &&& (types.len() == 0 || types.contains(flavor_label(r.flavor)))
}

pub open spec fn kept_rows(rows: Seq<ModeRowV>, q: Seq<char>, status: Seq<Seq<char>>, types: Seq<Seq<char>>) -> Seq<
    ModeRowV,
> {
    rows.filter(|r: ModeRowV| row_matches(r, q, status, types))
}

pub open spec fn ids_of(rows: Seq<ModeRowV>) -> Seq<Seq<char>> {
    rows.map_values(|x: ModeRowV| x.id)
}

pub open spec fn keys_of(rows: Seq<ModeRowV>, by: SortKey) -> Seq<Seq<KeyPartV>> {
    rows.map_values(|x: ModeRowV| mode_key(x, by))
}

fn matches_row(row: &ModeRow, q: &Vec<char>, status: &Vec<String>, types: &Vec<String>) -> (r: bool)
    ensures
        r == row_matches(row@, q@, strings_view(status@), strings_view(types@)),
{
    if q.len() > 0 {
        let text = chars_of(row.search_text.as_str());
        if !contains(&text, q) {
            return false;
        }
    }
    if status.len() > 0 {
        let v = if row.is_on { "On" } else { "Off" };
        if !list_has(status, v) {
            return false;
        }
    }
    types.len() == 0 || list_has(types, row.flavor.filter_value())
}

/// The ids of the rows that pass the filters, in the chosen order (see
/// `mode_key`), descending when `desc`; rows with equal keys keep their order.
pub fn visible_mode_ids(
    rows: &Vec<ModeRow>,
    search: &str,
    status: &Vec<String>,
    types: &Vec<String>,
    sort_by: SortKey,
    desc: bool,
) -> (r: Vec<String>)
    ensures
        ({
            let kept = kept_rows(rows_view(rows@), mode_query(search@), strings_view(status@), strings_view(types@));
            exists|perm: Seq<int>|
                stable_sorted(ids_of(kept), keys_of(kept, sort_by), desc, strings_view(r@), perm)
        }),
{
    let t = trim(search);
    let q = chars_of(lowercase(t.as_str()).as_str());
    let ghost rv = rows_view(rows@);
    let ghost sv = strings_view(status@);
    let ghost tv = strings_view(types@);
    let ghost pred = |x: ModeRowV| row_matches(x, q@, sv, tv);
    let mut ids: Vec<String> = Vec::new();
    let mut keys: Vec<Vec<KeyPart>> = Vec::new();
    let mut i: usize = 0;
    while i < rows.len()
        invariant
            i <= rows.len(),
            rv == rows_view(rows@),
            sv == strings_view(status@),
            tv == strings_view(types@),
            pred == (|x: ModeRowV| row_matches(x, q@, sv, tv)),
            ids.len() == keys.len(),
            strings_view(ids@) == ids_of(rv.take(i as int).filter(pred)),
            keys_view(keys@) == keys_of(rv.take(i as int).filter(pred), sort_by),
        decreases rows.len() - i,
    {
        proof {
            assert(rv.take(i + 1).drop_last() =~= rv.take(i as int));
            reveal_with_fuel(Seq::filter, 1);
        }
        if matches_row(&rows[i], &q, status, types) {
            let ghost b_ids = ids@;
            let ghost b_keys = keys@;
            ids.push(owned(rows[i].id.as_str()));
            keys.push(mode_sort_key(&rows[i], sort_by));
            assert(strings_view(ids@) =~= strings_view(b_ids).push(rv[i as int].id));
            assert(keys_view(keys@) =~= keys_view(b_keys).push(mode_key(rv[i as int], sort_by)));
        }
        i = i + 1;
    }
    assert(rv.take(rows.len() as int) =~= rv);
    let sorted = sort_by_keys(ids, keys, desc);
    proof {
        let kept = rv.filter(pred);
        let perm = choose|perm: Seq<int>| stable_sorted(ids@, keys_view(keys@), desc, sorted@, perm);
        lemma_sorted_map(ids@, keys_view(keys@), desc, sorted@, perm, |s: String| s@);
        assert(ids@.map_values(|s: String| s@) =~= strings_view(ids@));
        assert(sorted@.map_values(|s: String| s@) =~= strings_view(sorted@));
        assert(q@ == mode_query(search@));
        assert(kept_rows(rv, mode_query(search@), sv, tv) == kept);
        assert(stable_sorted(ids_of(kept), keys_of(kept, sort_by), desc, strings_view(sorted@), perm));
    }
    sorted
}

// ── Counts and chips ─────────────────────────────────────────────────────────
/// How many rows are on, how many are criteria-driven, how many are built in.
pub fn mode_counts(rows: &Vec<ModeRow>) -> (r: (usize, usize, usize))
    ensures
        r.0 == rows_view(rows@).filter(|x: ModeRowV| x.is_on).len(),
        r.1 == rows_view(rows@).filter(|x: ModeRowV| x.flavor == ModeFlavor::Criteria).len(),
        r.2 == rows_view(rows@).filter(|x: ModeRowV| x.built_in).len(),
{
    let ghost rv = rows_view(rows@);
    let ghost p0 = |x: ModeRowV| x.is_on;
    let ghost p1 = |x: ModeRowV| x.flavor == ModeFlavor::Criteria;
    let ghost p2 = |x: ModeRowV| x.built_in;
    let mut on: usize = 0;
    let mut criteria: usize = 0;
    let mut built_in: usize = 0;
    let mut i: usize = 0;
    while i < rows.len()
        invariant
            i <= rows.len(),
            rv == rows_view(rows@),
            p0 == (|x: ModeRowV| x.is_on),
            p1 == (|x: ModeRowV| x.flavor == ModeFlavor::Criteria),
            p2 == (|x: ModeRowV| x.built_in),
            on == rv.take(i as int).filter(p0).len(),
            criteria == rv.take(i as int).filter(p1).len(),
            built_in == rv.take(i as int).filter(p2).len(),
            on <= i,
            criteria <= i,
            built_in <= i,
        decreases rows.len() - i,
    {
        proof {
            assert(rv.take(i + 1).drop_last() =~= rv.take(i as int));
            reveal_with_fuel(Seq::filter, 1);
        }
        if rows[i].is_on {
            on = on + 1;
        }
        if rows[i].flavor == ModeFlavor::Criteria {
            criteria = criteria + 1;
        }
        if rows[i].built_in {
            built_in = built_in + 1;
        }
        i = i + 1;
    }
    assert(rv.take(rows.len() as int) =~= rv);
    (on, criteria, built_in)
}

/// The chips that name the active filters: the status and type selections
/// as listed, and the trimmed search text.
pub open spec fn filter_chips(status: Seq<Seq<char>>, types: Seq<Seq<char>>, search: Seq<char>) -> Seq<Seq<char>> {
    let a: Seq<Seq<char>> = if status.len() > 0 {
        seq!["Status: "@ + join(status, ", "@)]
    } else {
        Seq::empty()
    };
    let b = if types.len() > 0 {
        a.push("Type: "@ + join(types, ", "@))
    } else {
        a
    };
    if trimmed(search).len() > 0 {
        b.push("Search: "@ + trimmed(search))
    } else {
        b
    }
}

pub fn active_filter_chips(status: &Vec<String>, types: &Vec<String>, search: &str) -> (r: Vec<String>)
    ensures
        strings_view(r@) == filter_chips(strings_view(status@), strings_view(types@), search@),
{
    let mut chips: Vec<String> = Vec::new();
    if status.len() > 0 {
        let j = join_strings(status, ", ");
        chips.push(concat2("Status: ", j.as_str()));
    }
    if types.len() > 0 {
        let j = join_strings(types, ", ");
        chips.push(concat2("Type: ", j.as_str()));
    }
    let t = trim(search);
    if t.as_str().unicode_len() > 0 {
        chips.push(concat2("Search: ", t.as_str()));
    }
    assert(strings_view(chips@) =~= filter_chips(strings_view(status@), strings_view(types@), search@));
    chips
}

// ── Creating a mode ──────────────────────────────────────────────────────────
/// The kind of mode the create form makes.
#[derive(PartialEq, Eq, Structural, Clone, Copy, Debug)]
pub enum DraftModeKind {
    Manual,
    Criteria,
}

/// A checked request to create a mode.
pub struct NewMode {
    pub id: String,
    pub name: String,
    pub criteria: Option<CriteriaModeConfig>,
}

/// What the create form asks for: the trimmed name, the normalised id and,
/// for a criteria-driven mode, the saved criteria; or the first error.
pub open spec fn new_mode_of(
    name: Seq<char>,
    raw_id: Seq<char>,
    kind: DraftModeKind,
    config: Result<ConfigV, Seq<char>>,
) -> Result<(Seq<char>, Seq<char>, Option<ConfigV>), Seq<char>> {
    let n = trimmed(name);
    let id = mode_id_for(raw_id);
    if n.len() == 0 {
        Err("Mode name is required."@)
    } else if id.len() == 0 {
        Err("Mode id is required."@)
    } else if kind == DraftModeKind::Criteria {
        match config {
            Ok(c) => Ok((id, n, Some(c))),
            Err(e) => Err(e),
        }
    } else {
        Ok((id, n, None))
    }
}

pub open spec fn new_mode_view(m: NewMode) -> (Seq<char>, Seq<char>, Option<ConfigV>) {
    (
        m.id@,
        m.name@,
        match m.criteria {
            Some(c) => Some(c@),
            None => None,
        },
    )
}

/// Checks the create form; `on_forms` and `off_forms` hold the parses of the
/// builder's value texts.
pub fn prepare_new_mode(
    name: &str,
    raw_id: &str,
    kind: DraftModeKind,
    builder: &CriteriaBuilderState,
    on_forms: &Vec<ValueTextForms>,
    off_forms: &Vec<ValueTextForms>,
) -> (r: Result<NewMode, String>)
    requires
        kind == DraftModeKind::Criteria ==> on_forms.len() == builder.on_clauses.len(),
        kind == DraftModeKind::Criteria ==> off_forms.len() == builder.off_clauses.len(),
    ensures
        ({
            let expected = new_mode_of(
                name@,
                raw_id@,
                kind,
                config_from_builder(builder@, forms_view(on_forms@), forms_view(off_forms@)),
            );
            match r {
                Ok(m) => expected == Ok::<(Seq<char>, Seq<char>, Option<ConfigV>), Seq<char>>(new_mode_view(m)),
                Err(e) => expected == Err::<(Seq<char>, Seq<char>, Option<ConfigV>), Seq<char>>(e@),
            }
        }),
{
    let n = trim(name);
    let id = parse_mode_id_input(raw_id);
    if n.as_str().unicode_len() == 0 {
        return Err(owned("Mode name is required."));
    }
    if id.as_str().unicode_len() == 0 {
        return Err(owned("Mode id is required."));
    }
    let criteria = if kind == DraftModeKind::Criteria {
        match build_criteria_config(builder, on_forms, off_forms) {
            Ok(c) => Some(c),
            Err(e) => {
                return Err(e);
            },
        }
    } else {
        None
    };
    Ok(NewMode { id, name: n, criteria })
}

/// The hint under the id box.
pub open spec fn id_hint(raw_id: Seq<char>) -> Seq<char> {
    if mode_id_for(raw_id).len() == 0 {
        "Mode ids are normalized to the required mode_ prefix."@
    } else {
        "Will create "@ + mode_id_for(raw_id)
    }
}

pub fn create_id_hint(raw_id: &str) -> (r: String)
    ensures
        r@ == id_hint(raw_id@),
{
    let id = parse_mode_id_input(raw_id);
    if id.as_str().unicode_len() == 0 {
        owned("Mode ids are normalized to the required mode_ prefix.")
    } else {
        concat2("Will create ", id.as_str())
    }
}

// ── The card ─────────────────────────────────────────────────────────────────
/// Whether the state says on (no state: off) and available (no state: yes).
pub open spec fn live_on(live: Option<ModeLiveState>) -> bool {
    match live {
        Some(s) => s.is_on,
        None => false,
    }
}

pub open spec fn live_available(live: Option<ModeLiveState>) -> bool {
    match live {
        Some(s) => s.available,
        None => true,
    }
}

pub open spec fn status_badge_of(live: Option<ModeLiveState>) -> Seq<char> {
    if !live_available(live) {
        "card-state-badge card-state-badge--tone-tone-offline"@
    } else if live_on(live) {
        "card-state-badge card-state-badge--tone-tone-good"@
    } else {
        "card-state-badge card-state-badge--tone-tone-idle"@
    }
}

pub open spec fn state_label_of(live: Option<ModeLiveState>) -> Seq<char> {
    if !live_available(live) {
        "Offline"@
    } else if live_on(live) {
        "On"@
    } else {
        "Off"@
    }
}

/// The card's status badge class and label: offline first, then on or off.
pub fn card_status(live: Option<ModeLiveState>) -> (r: (&'static str, &'static str))
    ensures
        r.0@ == status_badge_of(live),
        r.1@ == state_label_of(live),
{
    let on = match live {
        Some(s) => s.is_on,
        None => false,
    };
    let available = match live {
        Some(s) => s.available,
        None => true,
    };
    if !available {
        ("card-state-badge card-state-badge--tone-tone-offline", "Offline")
    } else if on {
        ("card-state-badge card-state-badge--tone-tone-good", "On")
    } else {
        ("card-state-badge card-state-badge--tone-tone-idle", "Off")
    }
}

/// When a criteria-driven mode turns off: the explicit off criteria, or the
/// negation of the on criteria.
pub open spec fn off_summary_of(
    c: ConfigV,
    dl: Seq<(Seq<char>, Seq<char>)>,
    ml: Seq<(Seq<char>, Seq<char>)>,
) -> Seq<char> {
    if c.off_behavior == CriteriaOffBehavior::Explicit {
        match c.off_condition {
            Some(o) => summary(o, dl, ml),
            None => "Explicit off criteria missing"@,
        }
    } else {
        "Not ("@ + summary(c.on_condition, dl, ml) + ")"@
    }
}

pub fn off_summary(
    criteria: &CriteriaModeConfig,
    device_labels: &Vec<(String, String)>,
    mode_labels: &Vec<(String, String)>,
) -> (r: String)
    ensures
        r@ == off_summary_of(criteria@, labels_view(device_labels@), labels_view(mode_labels@)),
{
    if criteria.off_behavior == CriteriaOffBehavior::Explicit {
        match &criteria.off_condition {
            Some(o) => condition_summary(o, device_labels, mode_labels),
            None => owned("Explicit off criteria missing"),
        }
    } else {
        let on = condition_summary(&criteria.on_condition, device_labels, mode_labels);
        crate::text::concat3("Not (", on.as_str(), ")")
    }
}

/// What an offset box's text gives: `text.parse::<i32>()`, or 0.
pub open spec fn offset_value(text: Seq<char>) -> int {
    match parse_i64(text) {
        Some(v) => if i32::MIN <= v && v <= i32::MAX {
            v
        } else {
            0
        },
        None => 0,
    }
}

pub fn parse_offset_minutes(text: &str) -> (r: i32)
    ensures
        r as int == offset_value(text@),
{
    let cs = chars_of(text);
    match parse_i64_chars(&cs) {
        Some(v) => if -2147483648 <= v && v <= 2147483647 {
            v as i32
        } else {
            0
        },
        None => 0,
    }
}

/// The request body that sets a solar mode's offsets.
pub fn solar_offsets_body(on_offset_minutes: i32, off_offset_minutes: i32) -> (r: Json)
    ensures
        r@ == JsonV::Obj(
            seq![
                ("on_offset_minutes"@, int_json(on_offset_minutes as int)),
                ("off_offset_minutes"@, int_json(off_offset_minutes as int)),
            ],
        ),
{
    let mut entries: Vec<(String, Json)> = Vec::new();
    entries.push((owned("on_offset_minutes"), int_value(on_offset_minutes as i64)));
    entries.push((owned("off_offset_minutes"), int_value(off_offset_minutes as i64)));
    assert(crate::json::entries_view(entries@) =~= seq![
        ("on_offset_minutes"@, int_json(on_offset_minutes as int)),
        ("off_offset_minutes"@, int_json(off_offset_minutes as int)),
    ]);
    let r = make_object(entries);
    assert(r@ == JsonV::Obj(
        seq![
            ("on_offset_minutes"@, int_json(on_offset_minutes as int)),
            ("off_offset_minutes"@, int_json(off_offset_minutes as int)),
        ],
    ));
    r
}

/// The offset line under a solar event.
pub fn offset_text(minutes: i32) -> (r: String)
    ensures
        r@ == "Offset "@ + crate::text::int_decimal(minutes as int) + " min"@,
{
    let mut out: Vec<char> = Vec::new();
    push_str(&mut out, "Offset ");
    let d = i64_decimal(minutes as i64);
    crate::text::push_chars(&mut out, &d);
    push_str(&mut out, " min");
    string_of(&out)
}

/// An option of the mode and device pickers: `name · id`.
pub fn option_label(name: &str, id: &str) -> (r: String)
    ensures
        r@ == name@ + " · "@ + id@,
{
    crate::text::concat3(name, " · ", id)
}

/// The pickers' options other than the mode's own.
pub fn options_except(options: &Vec<(String, String)>, id: &str) -> (r: Vec<(String, String)>)
    ensures
        labels_view(r@) == labels_view(options@).filter(|p: (Seq<char>, Seq<char>)| p.0 != id@),
{
    let ghost ov = labels_view(options@);
    let ghost pred = |p: (Seq<char>, Seq<char>)| p.0 != id@;
    let mut out: Vec<(String, String)> = Vec::new();
    let mut i: usize = 0;
    while i < options.len()
        invariant
            i <= options.len(),
            ov == labels_view(options@),
            pred == (|p: (Seq<char>, Seq<char>)| p.0 != id@),
            labels_view(out@) == ov.take(i as int).filter(pred),
        decreases options.len() - i,
    {
        proof {
            assert(ov.take(i + 1).drop_last() =~= ov.take(i as int));
            reveal_with_fuel(Seq::filter, 1);
        }
        if !str_eq(options[i].0.as_str(), id) {
            let ghost before = out@;
            out.push((owned(options[i].0.as_str()), owned(options[i].1.as_str())));
            assert(labels_view(out@) =~= labels_view(before).push(ov[i as int]));
        }
        i = i + 1;
    }
    assert(ov.take(options.len() as int) =~= ov);
    out
}

} // verus!
