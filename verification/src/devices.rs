//! The devices list: its saved preferences, filters, order, pages and the
//! chips that name the active filters.
use vstd::prelude::*;
use crate::text::{
    str_eq, owned, lowercase, trim, trimmed, chars_of, contains, contains_sub, unicode_lowercase,
    strings_view, string_of, push_str, push_chars, u64_decimal, nat_decimal, concat2,
};
use crate::json::{Json, JsonV, make_object, json_string, entries_view, str_at_or, bool_at, u64_at, entries_index_from};
use crate::rule_options::ChangeKind;
use crate::criteria::{int_json, lemma_get_at};
use crate::sort::{KeyPart, KeyPartV, key_view, keys_view, stable_sorted, sort_by_keys, lemma_sorted_map};
use crate::mode_list::Moment;
use crate::rules::{strictly_sorted, insert_sorted};

verus! {

// ── Choices ──────────────────────────────────────────────────────────────────
/// What the device list is ordered by.
#[derive(PartialEq, Eq, Structural, Clone, Copy, Debug)]
pub enum DeviceSortKey {
    Name,
    Area,
    Status,
    Type,
    LastSeen,
}

/// Which devices the availability filter lets through.
#[derive(PartialEq, Eq, Structural, Clone, Copy, Debug)]
pub enum Availability {
    All,
    Online,
    Offline,
}

/// How tall the list's rows are.
#[derive(PartialEq, Eq, Structural, Clone, Copy, Debug)]
pub enum Density {
    Comfortable,
    Compact,
}

pub open spec fn device_sort_text(k: DeviceSortKey) -> Seq<char> {
    match k {
        DeviceSortKey::Name => "name"@,
        DeviceSortKey::Area => "area"@,
        DeviceSortKey::Status => "status"@,
        DeviceSortKey::Type => "type"@,
        DeviceSortKey::LastSeen => "last_seen"@,
    }
}

pub open spec fn device_sort_of(t: Option<Seq<char>>) -> DeviceSortKey {
    if t == Some("area"@) {
        DeviceSortKey::Area
    } else if t == Some("status"@) {
        DeviceSortKey::Status
    } else if t == Some("type"@) {
        DeviceSortKey::Type
    } else if t == Some("last_seen"@) {
        DeviceSortKey::LastSeen
    } else {
        DeviceSortKey::Name
    }
}

pub fn device_sort_key_from(t: Option<&str>) -> (r: DeviceSortKey)
    ensures
        r == device_sort_of(crate::mode_list::opt_str_view(t)),
{
    match t {
        Some(s) => if str_eq(s, "area") {
            DeviceSortKey::Area
        } else if str_eq(s, "status") {
            DeviceSortKey::Status
        } else if str_eq(s, "type") {
            DeviceSortKey::Type
        } else if str_eq(s, "last_seen") {
            DeviceSortKey::LastSeen
        } else {
            DeviceSortKey::Name
        },
        None => DeviceSortKey::Name,
    }
}

pub fn device_sort_key_text(k: DeviceSortKey) -> (r: &'static str)
    ensures
        r@ == device_sort_text(k),
{
    match k {
        DeviceSortKey::Name => "name",
        DeviceSortKey::Area => "area",
        DeviceSortKey::Status => "status",
        DeviceSortKey::Type => "type",
        DeviceSortKey::LastSeen => "last_seen",
    }
}

pub open spec fn availability_text(a: Availability) -> Seq<char> {
    match a {
        Availability::Online => "online"@,
        Availability::Offline => "offline"@,
        Availability::All => "all"@,
    }
}

pub open spec fn availability_of(t: Option<Seq<char>>) -> Availability {
    if t == Some("online"@) {
        Availability::Online
    } else if t == Some("offline"@) {
        Availability::Offline
    } else {
        Availability::All
    }
}

pub fn availability_from(t: Option<&str>) -> (r: Availability)
    ensures
        r == availability_of(crate::mode_list::opt_str_view(t)),
{
    match t {
        Some(s) => if str_eq(s, "online") {
            Availability::Online
        } else if str_eq(s, "offline") {
            Availability::Offline
        } else {
            Availability::All
        },
        None => Availability::All,
    }
}

pub fn availability_name(a: Availability) -> (r: &'static str)
    ensures
        r@ == availability_text(a),
{
    match a {
        Availability::Online => "online",
        Availability::Offline => "offline",
        Availability::All => "all",
    }
}

// ── Preferences ──────────────────────────────────────────────────────────────
/// The page sizes offered.
pub open spec fn page_size_ok(n: nat) -> bool {
    n == 25 || n == 50 || n == 100
}

/// The list's saved preferences.
pub struct DevicePrefs {
    pub density: Density,
    pub show_media: bool,
    pub page_size: usize,
    pub search: String,
    pub availability: Availability,
    pub area_filter: String,
    pub type_filter: String,
    pub plugin_filter: String,
    pub sort_by: DeviceSortKey,
    pub desc: bool,
}

pub struct DevicePrefsV {
    pub density: Density,
    pub show_media: bool,
    pub page_size: nat,
    pub search: Seq<char>,
    pub availability: Availability,
    pub area_filter: Seq<char>,
    pub type_filter: Seq<char>,
    pub plugin_filter: Seq<char>,
    pub sort_by: DeviceSortKey,
    pub desc: bool,
}

impl View for DevicePrefs {
    type V = DevicePrefsV;

    open spec fn view(&self) -> DevicePrefsV {
        DevicePrefsV {
            density: self.density,
            show_media: self.show_media,
            page_size: self.page_size as nat,
            search: self.search@,
            availability: self.availability,
            area_filter: self.area_filter@,
            type_filter: self.type_filter@,
            plugin_filter: self.plugin_filter@,
            sort_by: self.sort_by,
            desc: self.desc,
        }
    }
}

pub open spec fn default_prefs_v() -> DevicePrefsV {
    DevicePrefsV {
        density: Density::Comfortable,
        show_media: false,
        page_size: 25,
        search: Seq::empty(),
        availability: Availability::All,
        area_filter: "all"@,
        type_filter: "all"@,
        plugin_filter: "all"@,
        sort_by: DeviceSortKey::Name,
        desc: false,
    }
}

impl DevicePrefs {
    /// Comfortable rows, no media, 25 a page, no filters, by name ascending.
    pub fn default_prefs() -> (r: Self)
        ensures
            r@ == default_prefs_v(),
    {
        let e: Vec<char> = Vec::new();
        let search = string_of(&e);
        assert(search@ =~= Seq::<char>::empty());
        DevicePrefs {
            density: Density::Comfortable,
            show_media: false,
            page_size: 25,
            search,
            availability: Availability::All,
            area_filter: owned("all"),
            type_filter: owned("all"),
            plugin_filter: owned("all"),
            sort_by: DeviceSortKey::Name,
            desc: false,
        }
    }
}

pub open spec fn prefs_entries(p: DevicePrefsV) -> Seq<(Seq<char>, JsonV)> {
    seq![
        ("density"@, JsonV::Str(if p.density == Density::Compact { "compact"@ } else { "comfortable"@ })),
        ("show_media"@, JsonV::Bool(p.show_media)),
        ("page_size"@, int_json(p.page_size as int)),
        ("search"@, JsonV::Str(p.search)),
        ("availability"@, JsonV::Str(availability_text(p.availability))),
        ("area_filter"@, JsonV::Str(p.area_filter)),
        ("type_filter"@, JsonV::Str(p.type_filter)),
        ("plugin_filter"@, JsonV::Str(p.plugin_filter)),
        ("sort_by"@, JsonV::Str(device_sort_text(p.sort_by))),
        ("sort_dir"@, JsonV::Str(if p.desc { "desc"@ } else { "asc"@ })),
    ]
}

/// The saved form of the preferences.
pub fn save_prefs(p: &DevicePrefs) -> (r: Json)
    ensures
        r@ == JsonV::Obj(prefs_entries(p@)),
{
    let mut e: Vec<(String, Json)> = Vec::new();
    e.push((owned("density"), json_string(if p.density == Density::Compact { "compact" } else { "comfortable" })));
    e.push((owned("show_media"), Json::Bool(p.show_media)));
    e.push((owned("page_size"), int_value_u(p.page_size)));
    e.push((owned("search"), json_string(p.search.as_str())));
    e.push((owned("availability"), json_string(availability_name(p.availability))));
    e.push((owned("area_filter"), json_string(p.area_filter.as_str())));
    e.push((owned("type_filter"), json_string(p.type_filter.as_str())));
    e.push((owned("plugin_filter"), json_string(p.plugin_filter.as_str())));
    e.push((owned("sort_by"), json_string(device_sort_key_text(p.sort_by))));
    e.push((owned("sort_dir"), json_string(if p.desc { "desc" } else { "asc" })));
    assert(entries_view(e@) =~= prefs_entries(p@));
    make_object(e)
}

fn int_value_u(n: usize) -> (r: Json)
    ensures
        r@ == int_json(n as int),
{
    Json::Number(crate::json::JsonNumber::PosInt(n as u64))
}

/// The preferences a saved value holds; what is missing or unknown reads as
/// its default, and a page size not offered reads as 25.
pub open spec fn prefs_from(v: JsonV) -> DevicePrefsV {
    DevicePrefsV {
        density: if v.at("density"@) == JsonV::Str("compact"@) {
            Density::Compact
        } else {
            Density::Comfortable
        },
        show_media: bool_at(v, "show_media"@) == Some(true),
        page_size: match u64_at(v, "page_size"@) {
            Some(n) => if page_size_ok(n) {
                n
            } else {
                25
            },
            None => 25,
        },
        search: str_at_or(v, "search"@, ""@),
        availability: availability_of(v.at("availability"@).as_str()),
        area_filter: str_at_or(v, "area_filter"@, "all"@),
        type_filter: str_at_or(v, "type_filter"@, "all"@),
        plugin_filter: str_at_or(v, "plugin_filter"@, "all"@),
        sort_by: device_sort_of(v.at("sort_by"@).as_str()),
        desc: v.at("sort_dir"@) == JsonV::Str("desc"@),
    }
}

/// The preferences to start with: what was saved, or the defaults where
/// nothing readable was saved.
pub fn load_prefs(saved: Option<&Json>) -> (r: DevicePrefs)
    ensures
        r@ == match saved {
            Some(v) => prefs_from(v@),
            None => default_prefs_v(),
        },
{
    let v = match saved {
        Some(v) => v,
        None => {
            return DevicePrefs::default_prefs();
        },
    };
    let density = match crate::json::str_field(v, "density") {
        Some(d) => if str_eq(d.as_str(), "compact") {
            Density::Compact
        } else {
            Density::Comfortable
        },
        None => Density::Comfortable,
    };
    let page_size: usize = match crate::json::u64_field(v, "page_size") {
        Some(n) => if n == 25 || n == 50 || n == 100 {
            n as usize
        } else {
            25
        },
        None => 25,
    };
    let avail_text = crate::json::str_field(v, "availability");
    let availability = match &avail_text {
        Some(t) => availability_from(Some(t.as_str())),
        None => availability_from(None),
    };
    let sort_text = crate::json::str_field(v, "sort_by");
    let sort_by = match &sort_text {
        Some(t) => device_sort_key_from(Some(t.as_str())),
        None => device_sort_key_from(None),
    };
    let desc = match crate::json::str_field(v, "sort_dir") {
        Some(d) => str_eq(d.as_str(), "desc"),
        None => false,
    };
    DevicePrefs {
        density,
        show_media: crate::json::bool_field(v, "show_media") == Some(true),
        page_size,
        search: crate::json::str_field_or(v, "search", ""),
        availability,
        area_filter: crate::json::str_field_or(v, "area_filter", "all"),
        type_filter: crate::json::str_field_or(v, "type_filter", "all"),
        plugin_filter: crate::json::str_field_or(v, "plugin_filter", "all"),
        sort_by,
        desc,
    }
}

/// Saved preferences load back as they were saved, where the page size is
/// one of those offered.
pub proof fn law_prefs_roundtrip(p: DevicePrefsV)
    requires
        page_size_ok(p.page_size),
    ensures
        prefs_from(JsonV::Obj(prefs_entries(p))) == p,
{
    let es = prefs_entries(p);
    reveal_strlit("");
    reveal_strlit("all");
    reveal_strlit("area");
    reveal_strlit("area_filter");
    reveal_strlit("asc");
    reveal_strlit("availability");
    reveal_strlit("comfortable");
    reveal_strlit("compact");
    reveal_strlit("density");
    reveal_strlit("desc");
    reveal_strlit("last_seen");
    reveal_strlit("name");
    reveal_strlit("offline");
    reveal_strlit("online");
    reveal_strlit("page_size");
    reveal_strlit("plugin_filter");
    reveal_strlit("search");
    reveal_strlit("show_media");
    reveal_strlit("sort_by");
    reveal_strlit("sort_dir");
    reveal_strlit("status");
    reveal_strlit("type");
    reveal_strlit("type_filter");
    lemma_get_at(es, "density"@, 0);
    assert("show_media"@.len() != "density"@.len());
    lemma_get_at(es, "show_media"@, 1);
    assert("page_size"@.len() != "density"@.len());
    assert("page_size"@.len() != "show_media"@.len());
    lemma_get_at(es, "page_size"@, 2);
    assert("search"@.len() != "density"@.len());
    assert("search"@.len() != "show_media"@.len());
    assert("search"@.len() != "page_size"@.len());
    lemma_get_at(es, "search"@, 3);
    assert("availability"@.len() != "density"@.len());
    assert("availability"@.len() != "show_media"@.len());
    assert("availability"@.len() != "page_size"@.len());
    assert("availability"@.len() != "search"@.len());
    lemma_get_at(es, "availability"@, 4);
    assert("area_filter"@.len() != "density"@.len());
    assert("area_filter"@.len() != "show_media"@.len());
    assert("area_filter"@.len() != "page_size"@.len());
    assert("area_filter"@.len() != "search"@.len());
    assert("area_filter"@.len() != "availability"@.len());
    lemma_get_at(es, "area_filter"@, 5);
    assert("type_filter"@.len() != "density"@.len());
    assert("type_filter"@.len() != "show_media"@.len());
    assert("type_filter"@.len() != "page_size"@.len());
    assert("type_filter"@.len() != "search"@.len());
    assert("type_filter"@.len() != "availability"@.len());
    assert("type_filter"@[0] != "area_filter"@[0]);
    lemma_get_at(es, "type_filter"@, 6);
    assert("plugin_filter"@.len() != "density"@.len());
    assert("plugin_filter"@.len() != "show_media"@.len());
    assert("plugin_filter"@.len() != "page_size"@.len());
    assert("plugin_filter"@.len() != "search"@.len());
    assert("plugin_filter"@.len() != "availability"@.len());
    assert("plugin_filter"@.len() != "area_filter"@.len());
    assert("plugin_filter"@.len() != "type_filter"@.len());
    lemma_get_at(es, "plugin_filter"@, 7);
    assert("sort_by"@[0] != "density"@[0]);
    assert("sort_by"@.len() != "show_media"@.len());
    assert("sort_by"@.len() != "page_size"@.len());
    assert("sort_by"@.len() != "search"@.len());
    assert("sort_by"@.len() != "availability"@.len());
    assert("sort_by"@.len() != "area_filter"@.len());
    assert("sort_by"@.len() != "type_filter"@.len());
    assert("sort_by"@.len() != "plugin_filter"@.len());
    lemma_get_at(es, "sort_by"@, 8);
    assert("sort_dir"@.len() != "density"@.len());
    assert("sort_dir"@.len() != "show_media"@.len());
    assert("sort_dir"@.len() != "page_size"@.len());
    assert("sort_dir"@.len() != "search"@.len());
    assert("sort_dir"@.len() != "availability"@.len());
    assert("sort_dir"@.len() != "area_filter"@.len());
    assert("sort_dir"@.len() != "type_filter"@.len());
    assert("sort_dir"@.len() != "plugin_filter"@.len());
    assert("sort_dir"@.len() != "sort_by"@.len());
    lemma_get_at(es, "sort_dir"@, 9);
    assert("comfortable"@.len() != "compact"@.len());
    assert("asc"@.len() != "desc"@.len());
    match p.availability {
        Availability::Online => {},
        Availability::Offline => { assert("offline"@.len() != "online"@.len()); },
        Availability::All => { assert("all"@.len() != "online"@.len()); assert("all"@.len() != "offline"@.len()); },
    }
    match p.sort_by {
        DeviceSortKey::Name => { assert("name"@[0] != "area"@[0]); assert("name"@.len() != "status"@.len()); assert("name"@[0] != "type"@[0]); assert("name"@.len() != "last_seen"@.len()); },
        DeviceSortKey::Area => {  },
        DeviceSortKey::Status => { assert("status"@.len() != "area"@.len()); },
        DeviceSortKey::Type => { assert("type"@[0] != "area"@[0]); assert("type"@.len() != "status"@.len()); },
        DeviceSortKey::LastSeen => { assert("last_seen"@.len() != "area"@.len()); assert("last_seen"@.len() != "status"@.len()); assert("last_seen"@.len() != "type"@.len()); },
    }
}

// ── Rows ─────────────────────────────────────────────────────────────────────
/// What the list reads of a device; the display texts and sort keys are
/// the device model's.
pub struct DeviceRow {
    pub device_id: String,
    /// The shown name.
    pub name: String,
    pub canonical_name: Option<String>,
    pub area: Option<String>,
    /// The shown area.
    pub area_display: String,
    /// The shown type.
    pub type_label: String,
    pub plugin_id: String,
    /// The shown status.
    pub status: String,
    pub available: bool,
    pub is_scene: bool,
    pub last_change: Option<Moment>,
    /// The sort keys of the name, area, status and type.
    pub name_key: String,
    pub area_key: String,
    pub status_key: String,
    pub type_key: String,
}

pub struct DeviceRowV {
    pub device_id: Seq<char>,
    pub name: Seq<char>,
    pub canonical_name: Option<Seq<char>>,
    pub area: Option<Seq<char>>,
    pub area_display: Seq<char>,
    pub type_label: Seq<char>,
    pub plugin_id: Seq<char>,
    pub status: Seq<char>,
    pub available: bool,
    pub is_scene: bool,
    pub last_change: Option<Moment>,
    pub name_key: Seq<char>,
    pub area_key: Seq<char>,
    pub status_key: Seq<char>,
    pub type_key: Seq<char>,
}

impl View for DeviceRow {
    type V = DeviceRowV;

    open spec fn view(&self) -> DeviceRowV {
        DeviceRowV {
            device_id: self.device_id@,
            name: self.name@,
            canonical_name: crate::json::opt_view(self.canonical_name),
            area: crate::json::opt_view(self.area),
            area_display: self.area_display@,
            type_label: self.type_label@,
            plugin_id: self.plugin_id@,
            status: self.status@,
            available: self.available,
            is_scene: self.is_scene,
            last_change: self.last_change,
            name_key: self.name_key@,
            area_key: self.area_key@,
            status_key: self.status_key@,
            type_key: self.type_key@,
        }
    }
}

pub open spec fn devices_view(v: Seq<DeviceRow>) -> Seq<DeviceRowV> {
    Seq::new(v.len(), |i: int| v[i]@)
}

fn opt_owned(o: &Option<String>) -> (r: Option<String>)
    ensures
        crate::json::opt_view(r) == crate::json::opt_view(*o),
{
    match o {
        Some(s) => Some(owned(s.as_str())),
        None => None,
    }
}

impl DeviceRow {
    pub fn duplicate(&self) -> (r: Self)
        ensures
            r@ == self@,
    {
        DeviceRow {
            device_id: owned(self.device_id.as_str()),
            name: owned(self.name.as_str()),
            canonical_name: opt_owned(&self.canonical_name),
            area: opt_owned(&self.area),
            area_display: owned(self.area_display.as_str()),
            type_label: owned(self.type_label.as_str()),
            plugin_id: owned(self.plugin_id.as_str()),
            status: owned(self.status.as_str()),
            available: self.available,
            is_scene: self.is_scene,
            last_change: self.last_change,
            name_key: owned(self.name_key.as_str()),
            area_key: owned(self.area_key.as_str()),
            status_key: owned(self.status_key.as_str()),
            type_key: owned(self.type_key.as_str()),
        }
    }
}

pub open spec fn or_empty(o: Option<Seq<char>>) -> Seq<char> {
    match o {
        Some(s) => s,
        None => Seq::empty(),
    }
}

/// The text the search box looks in: name, id, canonical name, area, shown
/// area, type, plugin and status, space-separated.
pub open spec fn haystack_of(d: DeviceRowV) -> Seq<char> {
    d.name + " "@ + d.device_id + " "@ + or_empty(d.canonical_name) + " "@ + or_empty(d.area) + " "@
        + d.area_display + " "@ + d.type_label + " "@ + d.plugin_id + " "@ + d.status
}

/// The filters of the list.
pub struct DeviceFilter {
    pub search: String,
    pub availability: Availability,
    /// An area, or `all`.
    pub area: String,
    /// A type, or `all`.
    pub type_label: String,
    /// A plugin, or `all`.
    pub plugin: String,
}

/// Whether a device is listed: not a scene, and passing each filter; a
/// device without an area counts as `Unassigned`.
pub open spec fn device_matches(d: DeviceRowV, f: DeviceFilter) -> bool {
    let q = unicode_lowercase(trimmed(f.search@));
    &&& !d.is_scene
    &&& match f.availability {
        Availability::All => true,
        Availability::Online => d.available,
        Availability::Offline => !d.available,
    }
    &&& (f.area@ == "all"@ || (match d.area {
        Some(a) => a,
        None => "Unassigned"@,
    }) == f.area@)
    &&& (f.type_label@ == "all"@ || d.type_label == f.type_label@)
    &&& (f.plugin@ == "all"@ || d.plugin_id == f.plugin@)
    &&& (q.len() == 0 || contains_sub(unicode_lowercase(haystack_of(d)), q))
}

/// A device's sort key.
pub open spec fn device_key(d: DeviceRowV, by: DeviceSortKey) -> Seq<KeyPartV> {
    match by {
        DeviceSortKey::Name => seq![KeyPartV::Text(d.name_key)],
        DeviceSortKey::Area => seq![KeyPartV::Text(d.area_key)],
        DeviceSortKey::Status => seq![KeyPartV::Text(d.status_key)],
        DeviceSortKey::Type => seq![KeyPartV::Text(d.type_key)],
        DeviceSortKey::LastSeen => match d.last_change {
            None => seq![KeyPartV::Int(0)],
            Some(m) => seq![KeyPartV::Int(1), KeyPartV::Int(m.secs as int), KeyPartV::Int(m.nanos as int)],
        },
    }
}

pub open spec fn devices_kept(v: Seq<DeviceRowV>, f: DeviceFilter) -> Seq<DeviceRowV> {
    v.filter(|d: DeviceRowV| device_matches(d, f))
}

pub open spec fn device_keys(v: Seq<DeviceRowV>, by: DeviceSortKey) -> Seq<Seq<KeyPartV>> {
    v.map_values(|d: DeviceRowV| device_key(d, by))
}

fn haystack(d: &DeviceRow) -> (r: String)
    ensures
        r@ == haystack_of(d@),
{
    let mut out: Vec<char> = Vec::new();
    push_str(&mut out, d.name.as_str());
    push_str(&mut out, " ");
    push_str(&mut out, d.device_id.as_str());
    push_str(&mut out, " ");
    match &d.canonical_name {
        Some(c) => push_str(&mut out, c.as_str()),
        None => {},
    }
    push_str(&mut out, " ");
    match &d.area {
        Some(a) => push_str(&mut out, a.as_str()),
        None => {},
    }
    push_str(&mut out, " ");
    push_str(&mut out, d.area_display.as_str());
    push_str(&mut out, " ");
    push_str(&mut out, d.type_label.as_str());
    push_str(&mut out, " ");
    push_str(&mut out, d.plugin_id.as_str());
    push_str(&mut out, " ");
    push_str(&mut out, d.status.as_str());
    assert(out@ =~= haystack_of(d@));
    string_of(&out)
}

fn device_match(d: &DeviceRow, f: &DeviceFilter, q: &Vec<char>) -> (r: bool)
    requires
        q@ == unicode_lowercase(trimmed(f.search@)),
    ensures
        r == device_matches(d@, *f),
{
    if d.is_scene {
        return false;
    }
    let avail_ok = match f.availability {
        Availability::All => true,
        Availability::Online => d.available,
        Availability::Offline => !d.available,
    };
    if !avail_ok {
        return false;
    }
    if !str_eq(f.area.as_str(), "all") {
        let a = match &d.area {
            Some(a) => a.as_str(),
            None => "Unassigned",
        };
        if !str_eq(a, f.area.as_str()) {
            return false;
        }
    }
    if !str_eq(f.type_label.as_str(), "all") && !str_eq(d.type_label.as_str(), f.type_label.as_str()) {
        return false;
    }
    if !str_eq(f.plugin.as_str(), "all") && !str_eq(d.plugin_id.as_str(), f.plugin.as_str()) {
        return false;
    }
    if q.len() == 0 {
        return true;
    }
    let h = haystack(d);
    let hl = chars_of(lowercase(h.as_str()).as_str());
    contains(&hl, q)
}

fn device_sort_key(d: &DeviceRow, by: DeviceSortKey) -> (r: Vec<KeyPart>)
    ensures
        key_view(r@) == device_key(d@, by),
{
    let mut k: Vec<KeyPart> = Vec::new();
    match by {
        DeviceSortKey::Name => k.push(KeyPart::Text(owned(d.name_key.as_str()))),
        DeviceSortKey::Area => k.push(KeyPart::Text(owned(d.area_key.as_str()))),
        DeviceSortKey::Status => k.push(KeyPart::Text(owned(d.status_key.as_str()))),
        DeviceSortKey::Type => k.push(KeyPart::Text(owned(d.type_key.as_str()))),
        DeviceSortKey::LastSeen => match d.last_change {
            None => k.push(KeyPart::Int(0)),
            Some(m) => {
                k.push(KeyPart::Int(1));
                k.push(KeyPart::Int(m.secs as i128));
                k.push(KeyPart::Int(m.nanos as i128));
            },
        },
    }
    assert(key_view(k@) =~= device_key(d@, by));
    k
}

/// Every device the list shows is one of the devices, is not a scene, and
/// passes each filter that is set: its availability, its area (`Unassigned`
/// without one), its type and its plugin are the chosen ones. Every device
/// that is not a scene is shown when no filter is set and the search is
/// blank (once lower-cased), and so is one of a chosen type when no other
/// filter is set.
pub proof fn law_listed_devices(
    devices: Seq<DeviceRowV>,
    f: DeviceFilter,
    by: DeviceSortKey,
    desc: bool,
    out: Seq<DeviceRowV>,
    perm: Seq<int>,
)
    requires
        stable_sorted(devices_kept(devices, f), device_keys(devices_kept(devices, f), by), desc, out, perm),
    ensures
        forall|k: int|
            0 <= k < out.len() ==> {
                let d = #[trigger] out[k];
                &&& devices.contains(d)
                &&& !d.is_scene
                &&& (f.availability == Availability::Online ==> d.available)
                &&& (f.availability == Availability::Offline ==> !d.available)
                &&& (f.area@ != "all"@ ==> d.area == Some(f.area@) || (d.area is None && f.area@ == "Unassigned"@))
                &&& (f.type_label@ != "all"@ ==> d.type_label == f.type_label@)
                &&& (f.plugin@ != "all"@ ==> d.plugin_id == f.plugin@)
            },
        unicode_lowercase(trimmed(f.search@)).len() == 0 && f.availability == Availability::All && f.area@ == "all"@
            && f.plugin@ == "all"@ ==> forall|i: int|
            0 <= i < devices.len() && !devices[i].is_scene && (f.type_label@ == "all"@ || devices[i].type_label
                == f.type_label@) ==> out.contains(#[trigger] devices[i]),
{
    let kept = devices_kept(devices, f);
    let pred = |d: DeviceRowV| device_matches(d, f);
    crate::sort::lemma_sorted_same_items(kept, device_keys(kept, by), desc, out, perm);
    devices.filter_lemma(pred);
    assert forall|k: int| 0 <= k < out.len() implies devices.contains(#[trigger] out[k]) && device_matches(out[k], f) by {
        assert(kept.contains(out[k]));
        let j = choose|j: int| 0 <= j < kept.len() && kept[j] == out[k];
        assert(pred(kept[j]));
        devices.lemma_filter_contains_rev(pred, out[k]);
    }
    if unicode_lowercase(trimmed(f.search@)).len() == 0 && f.availability == Availability::All && f.area@ == "all"@
        && f.plugin@ == "all"@ {
        assert forall|i: int|
            0 <= i < devices.len() && !devices[i].is_scene && (f.type_label@ == "all"@ || devices[i].type_label
                == f.type_label@) implies out.contains(#[trigger] devices[i]) by {
            assert(pred(devices[i]));
            assert(kept.contains(devices[i]));
            let j = choose|j: int| 0 <= j < kept.len() && kept[j] == devices[i];
            assert(out.contains(kept[j]));
        }
    }
}

/// The listed devices in the chosen order, reversed when `desc`; devices
/// with equal keys keep their order.
pub fn sorted_filtered(devices: &Vec<DeviceRow>, filter: &DeviceFilter, sort_by: DeviceSortKey, desc: bool) -> (r: Vec<DeviceRow>)
    ensures
        ({
            let kept = devices_kept(devices_view(devices@), *filter);
            exists|perm: Seq<int>| stable_sorted(kept, device_keys(kept, sort_by), desc, devices_view(r@), perm)
        }),
{
    let t = trim(filter.search.as_str());
    let q = chars_of(lowercase(t.as_str()).as_str());
    let ghost dv = devices_view(devices@);
    let ghost pred = |d: DeviceRowV| device_matches(d, *filter);
    let mut kept: Vec<DeviceRow> = Vec::new();
    let mut keys: Vec<Vec<KeyPart>> = Vec::new();
    let mut i: usize = 0;
    while i < devices.len()
        invariant
            i <= devices.len(),
            dv == devices_view(devices@),
            q@ == unicode_lowercase(trimmed(filter.search@)),
            pred == (|d: DeviceRowV| device_matches(d, *filter)),
            kept.len() == keys.len(),
            devices_view(kept@) == dv.take(i as int).filter(pred),
            keys_view(keys@) == device_keys(dv.take(i as int).filter(pred), sort_by),
        decreases devices.len() - i,
    {
        proof {
            assert(dv.take(i + 1).drop_last() =~= dv.take(i as int));
            reveal_with_fuel(Seq::filter, 1);
        }
        if device_match(&devices[i], filter, &q) {
            let ghost b_kept = kept@;
            let ghost b_keys = keys@;
            kept.push(devices[i].duplicate());
            keys.push(device_sort_key(&devices[i], sort_by));
            assert(devices_view(kept@) =~= devices_view(b_kept).push(dv[i as int]));
            assert(keys_view(keys@) =~= keys_view(b_keys).push(device_key(dv[i as int], sort_by)));
            assert(device_keys(dv.take(i + 1).filter(pred), sort_by) =~= device_keys(dv.take(i as int).filter(pred), sort_by).push(
                device_key(dv[i as int], sort_by),
            ));
        }
        i = i + 1;
    }
    assert(dv.take(devices.len() as int) =~= dv);
    let ghost k_items = kept@;
    let ghost k_keys = keys_view(keys@);
    let sorted = sort_by_keys(kept, keys, desc);
    proof {
        let perm = choose|perm: Seq<int>| stable_sorted(k_items, k_keys, desc, sorted@, perm);
        lemma_sorted_map(k_items, k_keys, desc, sorted@, perm, |x: DeviceRow| x@);
        assert(k_items.map_values(|x: DeviceRow| x@) =~= devices_view(k_items));
        assert(sorted@.map_values(|x: DeviceRow| x@) =~= devices_view(sorted@));
        assert(devices_kept(dv, *filter) == dv.filter(pred));
        assert(stable_sorted(devices_kept(dv, *filter), device_keys(devices_kept(dv, *filter), sort_by), desc, devices_view(sorted@), perm));
    }
    sorted
}

// ── Pages ────────────────────────────────────────────────────────────────────
/// The number of pages: one for an empty list, else enough to hold all.
pub open spec fn total_pages_of(n: nat, size: nat) -> nat
    recommends
        size > 0,
{
    if n == 0 {
        1
    } else {
        ((n + size - 1) / size as int) as nat
    }
}

pub fn total_pages(n: usize, size: usize) -> (r: usize)
    requires
        size > 0,
    ensures
        r as nat == total_pages_of(n as nat, size as nat),
{
    if n == 0 {
        1
    } else {
        let q = n / size;
        let r = if n % size == 0 {
            q
        } else {
            assert(q < n) by (nonlinear_arith)
                requires
                    size > 0,
                    n > 0,
                    q == n / size,
                    n % size != 0,
            ;
            q + 1
        };
        assert(r == (n + size - 1) / size as int) by (nonlinear_arith)
            requires
                size > 0,
                n > 0,
                q == n / size,
                r == (if n % size == 0 { q as int } else { q + 1 }),
        ;
        r
    }
}

/// The shown page: the chosen one, or the last where it is past the end.
pub open spec fn clamp_page(page: nat, pages: nat) -> nat {
    if pages == 0 {
        0
    } else if page < pages {
        page
    } else {
        (pages - 1) as nat
    }
}

pub fn page_clamped(page: usize, pages: usize) -> (r: usize)
    ensures
        r as nat == clamp_page(page as nat, pages as nat),
{
    let last = if pages == 0 { 0 } else { pages - 1 };
    if page < last {
        page
    } else {
        last
    }
}

/// The shown page starts inside the list and holds at least one device,
/// and at most a page of them.
pub proof fn law_clamped_page_in_range(n: nat, size: nat, page: nat)
    requires
        n > 0,
        size > 0,
    ensures
        clamp_page(page, total_pages_of(n, size)) * size < n,
        clamp_page(page, total_pages_of(n, size)) < total_pages_of(n, size),
{
    let tp = total_pages_of(n, size);
    let c = clamp_page(page, tp);
    assert(tp >= 1) by (nonlinear_arith)
        requires
            n > 0,
            size > 0,
            tp == (n + size - 1) / size as int,
    ;
    assert(c <= tp - 1);
    assert((tp - 1) * size < n) by (nonlinear_arith)
        requires
            n > 0,
            size > 0,
            tp == (n + size - 1) / size as int,
    ;
    assert(c * size <= (tp - 1) * size) by (nonlinear_arith)
        requires
            c <= tp - 1,
            size > 0,
    ;
}

/// The devices of the shown page: at most `size` from `page * size` on.
pub fn page_slice<T>(items: &Vec<T>, page: usize, size: usize) -> (r: Vec<&T>)
    requires
        page * size <= usize::MAX,
    ensures
        r@.len() == (if items.len() <= page * size {
            0
        } else if items.len() - page * size < size {
            items.len() - page * size
        } else {
            size as int
        }),
        forall|k: int| 0 <= k < r@.len() ==> *#[trigger] r@[k] == items@[page * size + k],
{
    let start = page * size;
    if start >= items.len() {
        return Vec::new();
    }
    let end = if items.len() - start < size {
        items.len()
    } else {
        start + size
    };
    let mut out: Vec<&T> = Vec::new();
    let mut i = start;
    while i < end
        invariant
            start <= i <= end <= items.len(),
            start == page * size,
            out@.len() == i - start,
            forall|k: int| 0 <= k < out@.len() ==> *#[trigger] out@[k] == items@[start + k],
        decreases end - i,
    {
        out.push(&items[i]);
        i = i + 1;
    }
    out
}

/// The pager's text: the range shown and the total, or `No results`.
pub open spec fn page_info_of(page: nat, size: nat, total: nat) -> Seq<char> {
    if total == 0 {
        "No results"@
    } else {
        let start = page * size + 1;
        let end = if (page + 1) * size < total {
            (page + 1) * size
        } else {
            total
        };
        nat_decimal(start) + "–"@ + nat_decimal(end as nat) + " of "@ + nat_decimal(total)
    }
}

pub fn page_info(page: usize, size: usize, total: usize) -> (r: String)
    requires
        (page + 1) * size <= usize::MAX,
    ensures
        r@ == page_info_of(page as nat, size as nat, total as nat),
{
    if total == 0 {
        return owned("No results");
    }
    assert(page * size + size == (page + 1) * size && page * size <= (page + 1) * size) by (nonlinear_arith)
        requires
            page >= 0,
            size >= 0,
    ;
    assert(page * size + 1 <= usize::MAX) by (nonlinear_arith)
        requires
            (page + 1) * size <= usize::MAX,
            page * size + size == (page + 1) * size,
    ;
    let start = page * size + 1;
    let hi = page * size + size;
    let end = if hi < total {
        hi
    } else {
        total
    };
    let mut out = u64_decimal(start as u64);
    push_str(&mut out, "–");
    let e = u64_decimal(end as u64);
    push_chars(&mut out, &e);
    push_str(&mut out, " of ");
    let t = u64_decimal(total as u64);
    push_chars(&mut out, &t);
    string_of(&out)
}

/// The pager's page count: `shown / pages`.
pub fn page_count_text(page: usize, pages: usize) -> (r: String)
    requires
        page < usize::MAX,
    ensures
        r@ == nat_decimal(page as nat + 1) + " / "@ + nat_decimal(pages as nat),
{
    let mut out = u64_decimal((page + 1) as u64);
    push_str(&mut out, " / ");
    let t = u64_decimal(pages as u64);
    push_chars(&mut out, &t);
    string_of(&out)
}

/// The previous page (not below the first) and the next one.
pub fn prev_page(page: usize) -> (r: usize)
    ensures
        r == if page == 0 { 0 } else { page - 1 },
{
    page.saturating_sub(1)
}

/// Whether the Next button is disabled: on the last page.
pub fn next_disabled(clamped: usize, pages: usize) -> (r: bool)
    ensures
        r == (clamped + 1 >= pages),
{
    clamped >= pages || pages - clamped <= 1
}

// ── Chips and options ────────────────────────────────────────────────────────
/// The chips that name the active filters; `area_display` is how the
/// chosen area is shown.
pub open spec fn device_chips_of(f: DeviceFilter, area_display: Seq<char>) -> Seq<Seq<char>> {
    let s0: Seq<Seq<char>> = if trimmed(f.search@).len() > 0 {
        seq!["Search: "@ + trimmed(f.search@)]
    } else {
        Seq::empty()
    };
    let s1 = match f.availability {
        Availability::Online => s0.push("Online only"@),
        Availability::Offline => s0.push("Offline only"@),
        Availability::All => s0,
    };
    let s2 = if f.area@ != "all"@ {
        s1.push("Area: "@ + area_display)
    } else {
        s1
    };
    let s3 = if f.type_label@ != "all"@ {
        s2.push("Type: "@ + f.type_label@)
    } else {
        s2
    };
    if f.plugin@ != "all"@ {
        s3.push("Plugin: "@ + f.plugin@)
    } else {
        s3
    }
}

pub fn device_filter_chips(f: &DeviceFilter, area_display: &str) -> (r: Vec<String>)
    ensures
        strings_view(r@) == device_chips_of(*f, area_display@),
{
    let mut chips: Vec<String> = Vec::new();
    let t = trim(f.search.as_str());
    if t.as_str().unicode_len() > 0 {
        chips.push(concat2("Search: ", t.as_str()));
    }
    match f.availability {
        Availability::Online => chips.push(owned("Online only")),
        Availability::Offline => chips.push(owned("Offline only")),
        Availability::All => {},
    }
    if !str_eq(f.area.as_str(), "all") {
        chips.push(concat2("Area: ", area_display));
    }
    if !str_eq(f.type_label.as_str(), "all") {
        chips.push(concat2("Type: ", f.type_label.as_str()));
    }
    if !str_eq(f.plugin.as_str(), "all") {
        chips.push(concat2("Plugin: ", f.plugin.as_str()));
    }
    assert(strings_view(chips@) =~= device_chips_of(*f, area_display@));
    chips
}

/// The distinct texts of a list, in text order (the type and plugin
/// options).
pub fn distinct_sorted(values: &Vec<String>) -> (r: Vec<String>)
    ensures
        strictly_sorted(strings_view(r@)),
        forall|t: Seq<char>| #[trigger] strings_view(r@).contains(t) <==> strings_view(values@).contains(t),
{
    let mut out: Vec<String> = Vec::new();
    let mut i: usize = 0;
    while i < values.len()
        invariant
            i <= values.len(),
            strictly_sorted(strings_view(out@)),
            forall|t: Seq<char>| #[trigger] strings_view(out@).contains(t) <==> strings_view(values@).take(i as int).contains(t),
        decreases values.len() - i,
    {
        insert_sorted(&mut out, &values[i]);
        proof {
            let vv = strings_view(values@);
            assert forall|t: Seq<char>| #[trigger] strings_view(out@).contains(t) <==> vv.take(i + 1).contains(t) by {
                if vv.take(i + 1).contains(t) {
                    let w = choose|w: int| 0 <= w < i + 1 && #[trigger] vv.take(i + 1)[w] == t;
                    if w < i {
                        assert(vv.take(i as int)[w] == t);
                    }
                }
                if vv.take(i as int).contains(t) {
                    let w = choose|w: int| 0 <= w < i && #[trigger] vv.take(i as int)[w] == t;
                    assert(vv.take(i + 1)[w] == t);
                }
                if t == vv[i as int] {
                    assert(vv.take(i + 1)[i as int] == t);
                }
            }
        }
        i = i + 1;
    }
    assert(strings_view(values@).take(values.len() as int) =~= strings_view(values@));
    out
}

/// The body that switches a device on or off, and the button's label.
pub fn toggle_request(is_on: bool) -> (r: (Json, &'static str))
    ensures
        r.0@ == JsonV::Obj(seq![("on"@, JsonV::Bool(!is_on))]),
        r.1@ == if is_on { "Turn off"@ } else { "Turn on"@ },
{
    let mut e: Vec<(String, Json)> = Vec::new();
    e.push((owned("on"), Json::Bool(!is_on)));
    assert(entries_view(e@) =~= seq![("on"@, JsonV::Bool(!is_on))]);
    (make_object(e), if is_on { "Turn off" } else { "Turn on" })
}

/// The page after the search, a filter, the sort or the page size
/// changed: back to the first page. The settings' first reading, when the
/// page mounts, keeps the page.
pub fn page_after_settings(page: usize, first_reading: bool) -> (r: usize)
    ensures
        r == if first_reading {
            page
        } else {
            0
        },
{
    if first_reading {
        page
    } else {
        0
    }
}

// ── The live device list ─────────────────────────────────────────────────────
/// The first row with a device id, if any.
pub open spec fn row_index(rows: Seq<DeviceRowV>, id: Seq<char>) -> Option<int>
    decreases rows.len(),
{
    if rows.len() == 0 {
        None
    } else {
        match row_index(rows.drop_last(), id) {
            Some(p) => Some(p),
            None => if rows.last().device_id == id {
                Some(rows.len() - 1)
            } else {
                None
            },
        }
    }
}

/// A fetched device replaces the row with its id, or joins the end.
pub open spec fn with_row(rows: Seq<DeviceRowV>, d: DeviceRowV) -> Seq<DeviceRowV> {
    match row_index(rows, d.device_id) {
        Some(p) => rows.update(p, d),
        None => rows.push(d),
    }
}

/// The rows after the fetched devices are put in one after another.
pub open spec fn seeded(rows: Seq<DeviceRowV>, fetched: Seq<DeviceRowV>) -> Seq<DeviceRowV>
    decreases fetched.len(),
{
    if fetched.len() == 0 {
        rows
    } else {
        with_row(seeded(rows, fetched.drop_last()), fetched.last())
    }
}

proof fn lemma_row_index(rows: Seq<DeviceRowV>, id: Seq<char>)
    ensures
        match row_index(rows, id) {
            Some(p) => 0 <= p < rows.len() && rows[p].device_id == id && forall|j: int|
                0 <= j < p ==> (#[trigger] rows[j]).device_id != id,
            None => forall|j: int| 0 <= j < rows.len() ==> (#[trigger] rows[j]).device_id != id,
        },
    decreases rows.len(),
{
    if rows.len() > 0 {
        lemma_row_index(rows.drop_last(), id);
        assert forall|j: int| 0 <= j < rows.len() - 1 implies #[trigger] rows[j] == rows.drop_last()[j] by {}
    }
}

fn find_row(rows: &Vec<DeviceRow>, id: &str) -> (r: Option<usize>)
    ensures
        match r {
            Some(p) => row_index(devices_view(rows@), id@) == Some(p as int),
            None => row_index(devices_view(rows@), id@) is None,
        },
{
    let ghost v = devices_view(rows@);
    let mut i: usize = 0;
    while i < rows.len()
        invariant
            i <= rows.len(),
            v == devices_view(rows@),
            row_index(v.take(i as int), id@) is None,
        decreases rows.len() - i,
    {
        proof {
            assert(v.take(i + 1).drop_last() =~= v.take(i as int));
        }
        if str_eq(rows[i].device_id.as_str(), id) {
            proof {
                assert(v.take(i + 1).last() == v[i as int]);
                lemma_row_index(v, id@);
                lemma_row_index(v.take(i as int), id@);
                assert forall|j: int| 0 <= j < i implies (#[trigger] v[j]).device_id != id@ by {
                    assert(v.take(i as int)[j] == v[j]);
                }
                if row_index(v, id@) != Some(i as int) {
                    match row_index(v, id@) {
                        Some(q) => {
                            assert(q < i ==> v[q].device_id != id@);
                        },
                        None => {},
                    }
                }
            }
            return Some(i);
        }
        i = i + 1;
    }
    assert(v.take(rows.len() as int) =~= v);
    None
}

/// The device list seeded from a fetch: each fetched device replaces the
/// row with its id, or joins the end (see `seeded`).
pub fn seed_devices(rows: &mut Vec<DeviceRow>, fetched: &Vec<DeviceRow>)
    ensures
        devices_view(final(rows)@) == seeded(devices_view(old(rows)@), devices_view(fetched@)),
{
    let ghost start = devices_view(rows@);
    let ghost fv = devices_view(fetched@);
    let mut i: usize = 0;
    while i < fetched.len()
        invariant
            i <= fetched.len(),
            fv == devices_view(fetched@),
            devices_view(rows@) == seeded(start, fv.take(i as int)),
        decreases fetched.len() - i,
    {
        let d = fetched[i].duplicate();
        proof {
            assert(fv.take(i + 1).drop_last() =~= fv.take(i as int));
            assert(fv.take(i + 1).last() == fv[i as int]);
        }
        let ghost before = devices_view(rows@);
        proof {
            lemma_row_index(before, d.device_id@);
        }
        match find_row(rows, d.device_id.as_str()) {
            Some(p) => {
                rows.set(p, d);
                assert(devices_view(rows@) =~= before.update(p as int, fv[i as int]));
            },
            None => {
                rows.push(d);
                assert(devices_view(rows@) =~= before.push(fv[i as int]));
            },
        }
        i = i + 1;
    }
    assert(fv.take(fetched.len() as int) =~= fv);
}

/// No two rows share a device id.
pub open spec fn ids_distinct(rows: Seq<DeviceRowV>) -> bool {
    forall|i: int, j: int| 0 <= i < j < rows.len() ==> (#[trigger] rows[i]).device_id != (#[trigger] rows[j]).device_id
}

/// Seeding keeps one row per device, and every fetched device is in the
/// list afterwards as its last fetched version.
pub proof fn law_seeded_rows(rows: Seq<DeviceRowV>, fetched: Seq<DeviceRowV>)
    requires
        ids_distinct(rows),
    ensures
        ids_distinct(seeded(rows, fetched)),
        forall|k: int| 0 <= k < fetched.len() ==> #[trigger] row_index(seeded(rows, fetched), fetched[k].device_id) is Some,
        fetched.len() > 0 ==> seeded(rows, fetched)[row_index(seeded(rows, fetched), fetched.last().device_id)->0]
            == fetched.last(),
    decreases fetched.len(),
{
    if fetched.len() > 0 {
        let p = fetched.drop_last();
        let d = fetched.last();
        law_seeded_rows(rows, p);
        let s = seeded(rows, p);
        let t = with_row(s, d);
        lemma_row_index(s, d.device_id);
        match row_index(s, d.device_id) {
            Some(q) => {
                assert forall|i: int, j: int| 0 <= i < j < t.len() implies (#[trigger] t[i]).device_id != (
                #[trigger] t[j]).device_id by {
                    assert(s[i].device_id != s[j].device_id);
                }
            },
            None => {
                assert forall|i: int, j: int| 0 <= i < j < t.len() implies (#[trigger] t[i]).device_id != (
                #[trigger] t[j]).device_id by {
                    if j < s.len() {
                        assert(s[i].device_id != s[j].device_id);
                    } else {
                        assert(t[j] == d);
                        assert(t[i] == s[i]);
                    }
                }
            },
        }
        assert forall|k: int| 0 <= k < fetched.len() implies #[trigger] row_index(t, fetched[k].device_id) is Some by {
            lemma_row_index(t, fetched[k].device_id);
            if k < p.len() {
                assert(p[k] == fetched[k]);
                lemma_row_index(s, fetched[k].device_id);
                let q = row_index(s, fetched[k].device_id)->0;
                if t[q].device_id != fetched[k].device_id {
                    assert(t[q] == d);
                }
                assert(t[q].device_id == fetched[k].device_id);
            } else {
                lemma_row_index(t, d.device_id);
                match row_index(s, d.device_id) {
                    Some(q) => assert(t[q] == d),
                    None => assert(t[s.len() as int] == d),
                }
            }
        }
        lemma_row_index(t, d.device_id);
        let r = row_index(t, d.device_id)->0;
        match row_index(s, d.device_id) {
            Some(q) => {
                assert(t[q] == d);
                if r != q {
                    assert(t[r].device_id == t[q].device_id);
                }
            },
            None => {
                assert(t[s.len() as int] == d);
                if r != s.len() {
                    assert(t[r].device_id == t[s.len() as int].device_id);
                }
            },
        }
    }
}

/// What a command from a device row's button means for the row, once the
/// hub has taken it.
#[derive(PartialEq, Eq, Structural, Clone, Copy, Debug)]
pub enum CommandIntent {
    Toggle(bool),
    Play,
    Pause,
}

/// A command a row's button hands on: the device, the state body, the
/// label (shown as "<label> sent") and what it means for the row.
pub struct DeviceCommand {
    pub device_id: String,
    pub body: Json,
    pub label: String,
    pub intent: CommandIntent,
}

/// What a device row offers as its primary action: a command button, or a
/// link to the device's page.
pub enum PrimaryAction {
    Command(DeviceCommand),
    Details { href: String },
}

/// What the device model says of a device, for its primary action.
pub struct PrimaryFacts {
    /// It can be switched on and off in place.
    pub inline_toggle: bool,
    /// Its `on` attribute is `true`.
    pub is_on: bool,
    pub is_media_player: bool,
    /// Its playback state is `playing`.
    pub playing: bool,
    pub supports_pause: bool,
    pub supports_play: bool,
}

/// The primary action: an on/off toggle where the device toggles in place;
/// for a media player, Pause while playing (where it can pause), else Play
/// (where it can play); otherwise a link to `/devices/<id>`.
pub open spec fn primary_action_of(id: Seq<char>, f: PrimaryFacts) -> Option<(JsonV, Seq<char>, CommandIntent)> {
    if f.inline_toggle {
        Some(
            (
                JsonV::Obj(seq![("on"@, JsonV::Bool(!f.is_on))]),
                if f.is_on { "Turn off"@ } else { "Turn on"@ },
                CommandIntent::Toggle(!f.is_on),
            ),
        )
    } else if f.is_media_player && f.playing && f.supports_pause {
        Some((JsonV::Obj(seq![("action"@, JsonV::Str("pause"@))]), "Pause"@, CommandIntent::Pause))
    } else if f.is_media_player && f.supports_play {
        Some((JsonV::Obj(seq![("action"@, JsonV::Str("play"@))]), "Play"@, CommandIntent::Play))
    } else {
        None
    }
}

fn action_body(action: &str) -> (r: Json)
    ensures
        r@ == JsonV::Obj(seq![("action"@, JsonV::Str(action@))]),
{
    let mut e: Vec<(String, Json)> = Vec::new();
    e.push((owned("action"), json_string(action)));
    assert(entries_view(e@) =~= seq![("action"@, JsonV::Str(action@))]);
    make_object(e)
}

/// A device row's primary action (see `primary_action_of`).
pub fn primary_action(device_id: &str, f: &PrimaryFacts) -> (r: PrimaryAction)
    ensures
        match primary_action_of(device_id@, *f) {
            Some((body, label, intent)) => r matches PrimaryAction::Command(c) && c.device_id@ == device_id@
                && c.body@ == body && c.label@ == label && c.intent == intent,
            None => r matches PrimaryAction::Details { href } && href@ == "/devices/"@ + device_id@,
        },
{
    if f.inline_toggle {
        let (body, label) = toggle_request(f.is_on);
        PrimaryAction::Command(
            DeviceCommand { device_id: owned(device_id), body, label: owned(label), intent: CommandIntent::Toggle(!f.is_on) },
        )
    } else if f.is_media_player && f.playing && f.supports_pause {
        PrimaryAction::Command(
            DeviceCommand { device_id: owned(device_id), body: action_body("pause"), label: owned("Pause"), intent: CommandIntent::Pause },
        )
    } else if f.is_media_player && f.supports_play {
        PrimaryAction::Command(
            DeviceCommand { device_id: owned(device_id), body: action_body("play"), label: owned("Play"), intent: CommandIntent::Play },
        )
    } else {
        PrimaryAction::Details { href: concat2("/devices/", device_id) }
    }
}

/// A row's button is disabled while a command to that device is under way.
pub fn action_disabled(busy_id: Option<&str>, device_id: &str) -> (r: bool)
    ensures
        r == match busy_id {
            Some(b) => b@ == device_id@,
            None => false,
        },
{
    match busy_id {
        Some(b) => str_eq(b, device_id),
        None => false,
    }
}

/// The attribute a taken command sets on the row's device: `on` for a
/// toggle, the playback `state` for play and pause.
pub open spec fn intent_attribute(i: CommandIntent) -> (Seq<char>, JsonV) {
    match i {
        CommandIntent::Toggle(on) => ("on"@, JsonV::Bool(on)),
        CommandIntent::Play => ("state"@, JsonV::Str("playing"@)),
        CommandIntent::Pause => ("state"@, JsonV::Str("paused"@)),
    }
}

/// The attribute name and value a taken command sets (see `intent_attribute`).
pub fn intent_patch(i: CommandIntent) -> (r: (String, Json))
    ensures
        (r.0@, r.1@) == intent_attribute(i),
{
    match i {
        CommandIntent::Toggle(on) => (owned("on"), Json::Bool(on)),
        CommandIntent::Play => (owned("state"), json_string("playing")),
        CommandIntent::Pause => (owned("state"), json_string("paused")),
    }
}

// ── After the hub answers a row's command ────────────────────────────────────
/// The last change of a device: when, where it came from, and who made it.
pub struct DeviceChange {
    pub changed_at: Moment,
    pub kind: ChangeKind,
    pub source: Option<String>,
    pub actor_id: Option<String>,
    pub actor_name: Option<String>,
    pub correlation_id: Option<String>,
}

/// A device as the live list holds it.
pub struct LiveDevice {
    pub device_id: String,
    /// The attribute map, one entry per name.
    pub attributes: Vec<(String, Json)>,
    pub last_seen: Option<Moment>,
    pub last_change: Option<DeviceChange>,
}

/// The row buttons' shared state: the device a command is under way for,
/// and the error or notice to show.
pub struct CommandBar {
    pub busy_id: Option<String>,
    pub error: Option<String>,
    pub notice: Option<String>,
}

/// The attribute map with `key` set to `v`: the entry under `key` takes the
/// value where there is one, else the entry joins the end.
pub open spec fn attrs_with(es: Seq<(Seq<char>, JsonV)>, key: Seq<char>, v: JsonV) -> Seq<(Seq<char>, JsonV)> {
    match entries_index_from(es, key, 0) {
        Some(p) => es.update(p, (key, v)),
        None => es.push((key, v)),
    }
}

fn set_attribute(attrs: &mut Vec<(String, Json)>, key: String, v: Json)
    ensures
        entries_view(final(attrs)@) == attrs_with(entries_view(old(attrs)@), key@, v@),
{
    let ghost es = entries_view(attrs@);
    let ghost k = key@;
    let mut i: usize = 0;
    while i < attrs.len()
        invariant
            i <= attrs.len(),
            es == entries_view(attrs@),
            es == entries_view(old(attrs)@),
            k == key@,
            entries_index_from(es, k, 0) == entries_index_from(es, k, i as int),
        decreases attrs.len() - i,
    {
        if str_eq(attrs[i].0.as_str(), key.as_str()) {
            assert(es[i as int].0 == k);
            assert(entries_index_from(es, k, i as int) == Some(i as int));
            let ghost gv = v@;
            attrs.set(i, (key, v));
            assert(entries_view(attrs@) =~= es.update(i as int, (k, gv)));
            assert(attrs_with(es, k, gv) == es.update(i as int, (k, gv)));
            return;
        }
        i = i + 1;
    }
    let ghost before = attrs@;
    attrs.push((key, v));
    assert(entries_view(attrs@) =~= es.push((key@, v@)));
}

/// A row button was pressed: the command for `device_id` is under way and
/// the last error and notice are cleared.
pub fn begin_command(bar: &mut CommandBar, device_id: &str)
    ensures
        final(bar).busy_id matches Some(b) && b@ == device_id@,
        final(bar).error is None,
        final(bar).notice is None,
{
    bar.busy_id = Some(owned(device_id));
    bar.error = None;
    bar.notice = None;
}

/// Whether `after` is the device `before` once the hub took a command
/// with that intent at `now`: the intent's attribute set, seen at `now`, and
/// last changed at `now` by homeCore through the API.
pub open spec fn patched(before: LiveDevice, after: LiveDevice, intent: CommandIntent, now: Moment) -> bool {
    &&& after.device_id == before.device_id
    &&& entries_view(after.attributes@) == attrs_with(
        entries_view(before.attributes@),
        intent_attribute(intent).0,
        intent_attribute(intent).1,
    )
    &&& after.last_seen == Some(now)
    &&& after.last_change matches Some(c) && c.changed_at == now && c.kind == ChangeKind::Homecore && (c.source matches Some(
        s,
    ) && s@ == "api"@) && c.actor_id is None && c.actor_name is None && c.correlation_id is None
}

/// The first device in the list with an id.
pub open spec fn live_index(ds: Seq<LiveDevice>, id: Seq<char>) -> Option<int>
    decreases ds.len(),
{
    if ds.len() == 0 {
        None
    } else {
        match live_index(ds.drop_last(), id) {
            Some(p) => Some(p),
            None => if ds.last().device_id@ == id {
                Some(ds.len() - 1)
            } else {
                None
            },
        }
    }
}

proof fn lemma_live_index(ds: Seq<LiveDevice>, id: Seq<char>)
    ensures
        match live_index(ds, id) {
            Some(p) => 0 <= p < ds.len() && ds[p].device_id@ == id && forall|j: int|
                0 <= j < p ==> (#[trigger] ds[j]).device_id@ != id,
            None => forall|j: int| 0 <= j < ds.len() ==> (#[trigger] ds[j]).device_id@ != id,
        },
    decreases ds.len(),
{
    if ds.len() > 0 {
        lemma_live_index(ds.drop_last(), id);
        assert forall|j: int| 0 <= j < ds.len() - 1 implies #[trigger] ds[j] == ds.drop_last()[j] by {}
    }
}

fn find_live(ds: &Vec<LiveDevice>, id: &str) -> (r: Option<usize>)
    ensures
        match r {
            Some(p) => live_index(ds@, id@) == Some(p as int),
            None => live_index(ds@, id@) is None,
        },
{
    proof {
        lemma_live_index(ds@, id@);
    }
    let mut i: usize = 0;
    while i < ds.len()
        invariant
            i <= ds.len(),
            forall|j: int| 0 <= j < i ==> (#[trigger] ds@[j]).device_id@ != id@,
            match live_index(ds@, id@) {
                Some(p) => 0 <= p < ds@.len() && ds@[p].device_id@ == id@ && forall|j: int|
                    0 <= j < p ==> (#[trigger] ds@[j]).device_id@ != id@,
                None => forall|j: int| 0 <= j < ds@.len() ==> (#[trigger] ds@[j]).device_id@ != id@,
            },
        decreases ds.len() - i,
    {
        if str_eq(ds[i].device_id.as_str(), id) {
            return Some(i);
        }
        i = i + 1;
    }
    None
}

/// The hub's answer to a row's command. Where it took the command, the
/// device with that id (where the list has one) is patched as `patched`
/// says, at a time read from the clock, every other device stays, and the
/// notice reads "<label> sent"; where it refused, the list stays and the
/// error is shown. Either way no command is under way any more.
pub fn command_answered(
    devices: &mut Vec<LiveDevice>,
    bar: &mut CommandBar,
    device_id: &str,
    label: &str,
    intent: CommandIntent,
    answer: Result<(), String>,
)
    ensures
        final(bar).busy_id is None,
        answer is Ok ==> final(bar).error == old(bar).error,
        answer is Ok ==> (final(bar).notice matches Some(n) && n@ == label@ + " sent"@),
        answer is Ok ==> final(devices)@.len() == old(devices)@.len(),
        answer is Ok && live_index(old(devices)@, device_id@) is None ==> final(devices)@ == old(devices)@,
        answer is Ok && live_index(old(devices)@, device_id@) is Some ==> exists|now: Moment|
            now.nanos < 2_000_000_000 && #[trigger] patched(
                old(devices)@[live_index(old(devices)@, device_id@)->0],
                final(devices)@[live_index(old(devices)@, device_id@)->0],
                intent,
                now,
            ),
        answer is Ok ==> forall|j: int|
            0 <= j < old(devices)@.len() && Some(j) != live_index(old(devices)@, device_id@)
                ==> #[trigger] final(devices)@[j] == old(devices)@[j],
        answer matches Err(e) ==> final(bar).error == Some(e) && final(bar).notice == old(bar).notice
            && final(devices)@ == old(devices)@,
{
    match answer {
        Ok(()) => {
            proof {
                lemma_live_index(devices@, device_id@);
            }
            match find_live(devices, device_id) {
                Some(p) => {
                    let ghost before = devices@;
                    let now = crate::rule_editor::utc_now();
                    let mut d = devices.remove(p);
                    let (k, v) = intent_patch(intent);
                    set_attribute(&mut d.attributes, k, v);
                    d.last_seen = Some(now);
                    d.last_change = Some(
                        DeviceChange {
                            changed_at: now,
                            kind: ChangeKind::Homecore,
                            source: Some(owned("api")),
                            actor_id: None,
                            actor_name: None,
                            correlation_id: None,
                        },
                    );
                    devices.insert(p, d);
                    assert(patched(before[p as int], devices@[p as int], intent, now));
                    assert(live_index(before, device_id@)->0 == p as int);
                    assert(exists|t: Moment|
                        t.nanos < 2_000_000_000 && #[trigger] patched(
                            before[live_index(before, device_id@)->0],
                            devices@[live_index(before, device_id@)->0],
                            intent,
                            t,
                        ));
                    assert forall|j: int| 0 <= j < before.len() && j != p implies #[trigger] devices@[j] == before[j] by {}
                },
                None => {},
            }
            bar.notice = Some(concat2(label, " sent"));
        },
        Err(e) => {
            bar.error = Some(e);
        },
    }
    bar.busy_id = None;
}

/// A device that toggles in place offers the opposite of its state: the
/// body switches it to `!is_on`, the label names that new state ("Turn on"
/// exactly when the body switches it on), and the intent records it.
pub proof fn law_toggle_offers_opposite(id: Seq<char>, f: PrimaryFacts)
    requires
        f.inline_toggle,
    ensures
        primary_action_of(id, f) matches Some((body, label, intent)) && body.get("on"@) == Some(JsonV::Bool(!f.is_on))
            && (label == "Turn on"@) == !f.is_on && (label == "Turn off"@) == f.is_on && intent
            == CommandIntent::Toggle(!f.is_on),
{
    reveal_strlit("on");
    reveal_strlit("Turn on");
    reveal_strlit("Turn off");
    assert("Turn on"@.len() != "Turn off"@.len());
    let es = seq![("on"@, JsonV::Bool(!f.is_on))];
    assert(crate::json::entries_get_from(es, "on"@, 0) == Some(JsonV::Bool(!f.is_on)));
}

/// Sorted by name, the list runs in the order of the devices' name keys
/// (reversed when descending).
pub proof fn law_devices_by_name(
    devices: Seq<DeviceRowV>,
    f: DeviceFilter,
    desc: bool,
    out: Seq<DeviceRowV>,
    perm: Seq<int>,
)
    requires
        stable_sorted(
            devices_kept(devices, f),
            device_keys(devices_kept(devices, f), DeviceSortKey::Name),
            desc,
            out,
            perm,
        ),
    ensures
        forall|k: int|
            0 <= k < out.len() - 1 ==> (!desc ==> crate::sort::text_order((#[trigger] out[k]).name_key, out[k + 1].name_key)
                <= 0) && (desc ==> crate::sort::text_order(out[k].name_key, out[k + 1].name_key) >= 0),
{
    let kept = devices_kept(devices, f);
    let keys = device_keys(kept, DeviceSortKey::Name);
    reveal_with_fuel(crate::sort::key_order, 2);
    assert forall|k: int| 0 <= k < out.len() - 1 implies (!desc ==> crate::sort::text_order(
        (#[trigger] out[k]).name_key,
        out[k + 1].name_key,
    ) <= 0) && (desc ==> crate::sort::text_order(out[k].name_key, out[k + 1].name_key) >= 0) by {
        assert(crate::sort::in_order(keys[perm[k]], keys[perm[k + 1]], desc));
        assert(out[k] == kept[perm[k]] && out[k + 1] == kept[perm[k + 1]]);
        assert(keys[perm[k]] == device_key(out[k], DeviceSortKey::Name));
        assert(keys[perm[k + 1]] == device_key(out[k + 1], DeviceSortKey::Name));
        assert(device_key(out[k], DeviceSortKey::Name).drop_first() =~= Seq::<KeyPartV>::empty());
        assert(device_key(out[k + 1], DeviceSortKey::Name).drop_first() =~= Seq::<KeyPartV>::empty());
    }
}

/// The preferences to start with, from the stored text: the defaults where
/// nothing is stored or the text is not JSON, else what the JSON holds.
pub fn load_prefs_text(saved: Option<&str>) -> (r: DevicePrefs)
    ensures
        r@ == match saved {
            Some(t) => match crate::json::json_text_value(t@) {
                Some(v) => prefs_from(v),
                None => default_prefs_v(),
            },
            None => default_prefs_v(),
        },
{
    match saved {
        Some(t) => match crate::json::parse_json(t) {
            Some(v) => load_prefs(Some(&v)),
            None => load_prefs(None),
        },
        None => load_prefs(None),
    }
}

} // verus!
