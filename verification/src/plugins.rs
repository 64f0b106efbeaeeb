//! The plugins pages: status badges, the list's search and order, the
//! controls a plugin offers, and the detail page's small decisions.
use vstd::prelude::*;
use crate::text::{
    str_eq, owned, lowercase, trim, chars_of, contains, contains_sub, unicode_lowercase, trimmed,
    string_of, push_str, push_chars, u64_decimal, nat_decimal, concat2, concat3, strings_view,
    list_has,
};
use crate::json::{
    Json, JsonV, JsonNumber, NumV, make_object, json_string, entries_view, deep_clone, str_array, str_array_of,
};

use crate::sort::{KeyPart, KeyPartV, key_view, keys_view, stable_sorted, sort_by_keys, lemma_sorted_map};
use crate::mode_list::Moment;
use crate::rule_editor::{utc_now, whole_secs_between, elapsed_secs};

verus! {

// ── Badges ───────────────────────────────────────────────────────────────────
pub open spec fn status_dot_of(status: Seq<char>) -> Seq<char> {
    if status == "active"@ {
        "plugin-dot plugin-dot--active"@
    } else if status == "starting"@ {
        "plugin-dot plugin-dot--starting"@
    } else if status == "stopped"@ {
        "plugin-dot plugin-dot--stopped"@
    } else {
        "plugin-dot plugin-dot--offline"@
    }
}

pub fn status_dot_class(status: &str) -> (r: &'static str)
    ensures
        r@ == status_dot_of(status@),
{
    if str_eq(status, "active") {
        "plugin-dot plugin-dot--active"
    } else if str_eq(status, "starting") {
        "plugin-dot plugin-dot--starting"
    } else if str_eq(status, "stopped") {
        "plugin-dot plugin-dot--stopped"
    } else {
        "plugin-dot plugin-dot--offline"
    }
}

pub open spec fn status_label_of(status: Seq<char>) -> Seq<char> {
    if status == "active"@ {
        "Active"@
    } else if status == "starting"@ {
        "Starting"@
    } else if status == "stopped"@ {
        "Stopped"@
    } else if status == "offline"@ {
        "Offline"@
    } else {
        "Unknown"@
    }
}

pub fn status_label(status: &str) -> (r: &'static str)
    ensures
        r@ == status_label_of(status@),
{
    if str_eq(status, "active") {
        "Active"
    } else if str_eq(status, "starting") {
        "Starting"
    } else if str_eq(status, "stopped") {
        "Stopped"
    } else if str_eq(status, "offline") {
        "Offline"
    } else {
        "Unknown"
    }
}

/// Plugins the core runs itself are local; the others are remote.
pub fn type_label(managed: bool) -> (r: &'static str)
    ensures
        r@ == (if managed {
            "Local"@
        } else {
            "Remote"@
        }),
{
    if managed {
        "Local"
    } else {
        "Remote"
    }
}

/// Which of Start, Stop and Restart a plugin offers: only managed plugins
/// have controls; Start when stopped or offline, Stop when active or
/// starting, Restart when active.
pub open spec fn controls_of(managed: bool, status: Seq<char>) -> (bool, bool, bool) {
    (
        managed && (status == "stopped"@ || status == "offline"@),
        managed && (status == "active"@ || status == "starting"@),
        managed && status == "active"@,
    )
}

pub fn plugin_controls(managed: bool, status: &str) -> (r: (bool, bool, bool))
    ensures
        r == controls_of(managed, status@),
{
    let start = managed && (str_eq(status, "stopped") || str_eq(status, "offline"));
    let stop = managed && (str_eq(status, "active") || str_eq(status, "starting"));
    let restart = managed && str_eq(status, "active");
    (start, stop, restart)
}

/// `hay.contains(needle)` on strings.
pub fn str_contains(hay: &str, needle: &str) -> (r: bool)
    ensures
        r == contains_sub(hay@, needle@),
{
    let h = chars_of(hay);
    let n = chars_of(needle);
    contains(&h, &n)
}

// ── The list ─────────────────────────────────────────────────────────────────
/// What the plugin list reads of a plugin.
pub struct PluginRow {
    pub plugin_id: String,
    pub display_name: String,
    pub status: String,
}

pub struct PluginRowV {
    pub plugin_id: Seq<char>,
    pub display_name: Seq<char>,
    pub status: Seq<char>,
}

impl View for PluginRow {
    type V = PluginRowV;

    open spec fn view(&self) -> PluginRowV {
        PluginRowV { plugin_id: self.plugin_id@, display_name: self.display_name@, status: self.status@ }
    }
}

pub open spec fn plugins_view(v: Seq<PluginRow>) -> Seq<PluginRowV> {
    Seq::new(v.len(), |i: int| v[i]@)
}

impl PluginRow {
    pub fn duplicate(&self) -> (r: Self)
        ensures
            r@ == self@,
    {
        PluginRow {
            plugin_id: owned(self.plugin_id.as_str()),
            display_name: owned(self.display_name.as_str()),
            status: owned(self.status.as_str()),
        }
    }
}

/// Whether a plugin passes the search (its lower-cased name or id holds the
/// lower-cased search text) and the status selection (empty: all).
pub open spec fn plugin_matches(p: PluginRowV, q: Seq<char>, statuses: Seq<Seq<char>>) -> bool {
    &&& (q.len() == 0 || contains_sub(unicode_lowercase(p.display_name), q) || contains_sub(
        unicode_lowercase(p.plugin_id),
        q,
    ))
    &&& (statuses.len() == 0 || statuses.contains(p.status))
}

pub open spec fn plugins_kept(v: Seq<PluginRowV>, search: Seq<char>, statuses: Seq<Seq<char>>) -> Seq<PluginRowV> {
    v.filter(|p: PluginRowV| plugin_matches(p, unicode_lowercase(search), statuses))
}

pub open spec fn plugin_key(p: PluginRowV) -> Seq<KeyPartV> {
    seq![KeyPartV::Text(p.display_name)]
}

pub open spec fn plugin_keys(v: Seq<PluginRowV>) -> Seq<Seq<KeyPartV>> {
    v.map_values(|p: PluginRowV| plugin_key(p))
}

fn plugin_match(p: &PluginRow, q: &Vec<char>, statuses: &Vec<String>) -> (r: bool)
    ensures
        r == plugin_matches(p@, q@, strings_view(statuses@)),
{
    if q.len() > 0 {
        let name = chars_of(lowercase(p.display_name.as_str()).as_str());
        let id = chars_of(lowercase(p.plugin_id.as_str()).as_str());
        if !contains(&name, q) && !contains(&id, q) {
            return false;
        }
    }
    statuses.len() == 0 || list_has(statuses, p.status.as_str())
}

/// The plugins that pass the search and status selection, by name; plugins
/// with the same name keep their order.
pub fn plugin_list(plugins: &Vec<PluginRow>, search: &str, statuses: &Vec<String>) -> (r: Vec<PluginRow>)
    ensures
        ({
            let kept = plugins_kept(plugins_view(plugins@), search@, strings_view(statuses@));
            exists|perm: Seq<int>| stable_sorted(kept, plugin_keys(kept), false, plugins_view(r@), perm)
        }),
{
    let q = chars_of(lowercase(search).as_str());
    let ghost pv = plugins_view(plugins@);
    let ghost sv = strings_view(statuses@);
    let ghost pred = |p: PluginRowV| plugin_matches(p, q@, sv);
    let mut kept: Vec<PluginRow> = Vec::new();
    let mut keys: Vec<Vec<KeyPart>> = Vec::new();
    let mut i: usize = 0;
    while i < plugins.len()
        invariant
            i <= plugins.len(),
            pv == plugins_view(plugins@),
            sv == strings_view(statuses@),
            pred == (|p: PluginRowV| plugin_matches(p, q@, sv)),
            kept.len() == keys.len(),
            plugins_view(kept@) == pv.take(i as int).filter(pred),
            keys_view(keys@) == plugin_keys(pv.take(i as int).filter(pred)),
        decreases plugins.len() - i,
    {
        proof {
            assert(pv.take(i + 1).drop_last() =~= pv.take(i as int));
            reveal_with_fuel(Seq::filter, 1);
        }
        if plugin_match(&plugins[i], &q, statuses) {
            let ghost b_kept = kept@;
            let ghost b_keys = keys@;
            kept.push(plugins[i].duplicate());
            let mut k: Vec<KeyPart> = Vec::new();
            k.push(KeyPart::Text(owned(plugins[i].display_name.as_str())));
            assert(key_view(k@) =~= plugin_key(pv[i as int]));
            keys.push(k);
            assert(plugins_view(kept@) =~= plugins_view(b_kept).push(pv[i as int]));
            assert(keys_view(keys@) =~= keys_view(b_keys).push(plugin_key(pv[i as int])));
            assert(plugin_keys(pv.take(i + 1).filter(pred)) =~= plugin_keys(pv.take(i as int).filter(pred)).push(plugin_key(pv[i as int])));
        }
        i = i + 1;
    }
    assert(pv.take(plugins.len() as int) =~= pv);
    let ghost kept_items = kept@;
    let ghost kept_keys = keys_view(keys@);
    let sorted = sort_by_keys(kept, keys, false);
    proof {
        let perm = choose|perm: Seq<int>| stable_sorted(kept_items, kept_keys, false, sorted@, perm);
        lemma_sorted_map(kept_items, kept_keys, false, sorted@, perm, |p: PluginRow| p@);
        assert(kept_items.map_values(|p: PluginRow| p@) =~= plugins_view(kept_items));
        assert(sorted@.map_values(|p: PluginRow| p@) =~= plugins_view(sorted@));
        assert(plugins_kept(pv, search@, sv) == pv.filter(pred));
        assert(stable_sorted(plugins_kept(pv, search@, sv), plugin_keys(plugins_kept(pv, search@, sv)), false, plugins_view(sorted@), perm));
    }
    sorted
}

/// The heading: `N plugins, M active`.
pub open spec fn plugins_heading_of(v: Seq<PluginRowV>) -> Seq<char> {
    nat_decimal(v.len()) + " plugins, "@ + nat_decimal(v.filter(|p: PluginRowV| p.status == "active"@).len())
        + " active"@
}

pub fn plugins_heading(plugins: &Vec<PluginRow>) -> (r: String)
    ensures
        r@ == plugins_heading_of(plugins_view(plugins@)),
{
    let ghost pv = plugins_view(plugins@);
    let ghost pred = |p: PluginRowV| p.status == "active"@;
    let mut active: usize = 0;
    let mut i: usize = 0;
    while i < plugins.len()
        invariant
            i <= plugins.len(),
            pv == plugins_view(plugins@),
            pred == (|p: PluginRowV| p.status == "active"@),
            active == pv.take(i as int).filter(pred).len(),
            active <= i,
        decreases plugins.len() - i,
    {
        proof {
            assert(pv.take(i + 1).drop_last() =~= pv.take(i as int));
            reveal_with_fuel(Seq::filter, 1);
        }
        if str_eq(plugins[i].status.as_str(), "active") {
            active = active + 1;
        }
        i = i + 1;
    }
    assert(pv.take(plugins.len() as int) =~= pv);
    let mut out = u64_decimal(plugins.len() as u64);
    push_str(&mut out, " plugins, ");
    let a = u64_decimal(active as u64);
    push_chars(&mut out, &a);
    push_str(&mut out, " active");
    string_of(&out)
}

// ── The status selection ─────────────────────────────────────────────────────
/// A selection holds each status once.
pub open spec fn no_repeats(s: Seq<Seq<char>>) -> bool {
    forall|a: int, b: int| 0 <= a < b < s.len() ==> s[a] != s[b]
}

/// Clicking a status button: it leaves the selection if it was in it, and
/// joins it otherwise.
pub fn toggle_status(selection: &mut Vec<String>, status: &str)
    requires
        no_repeats(strings_view(old(selection)@)),
    ensures
        no_repeats(strings_view(final(selection)@)),
        strings_view(old(selection)@).contains(status@) ==> strings_view(final(selection)@) == strings_view(
            old(selection)@,
        ).filter(|x: Seq<char>| x != status@),
        !strings_view(old(selection)@).contains(status@) ==> strings_view(final(selection)@)
            == strings_view(old(selection)@).push(status@),
{
    let ghost sv = strings_view(selection@);
    let ghost pred = |x: Seq<char>| x != status@;
    if list_has(selection, status) {
        let mut kept: Vec<String> = Vec::new();
        let mut i: usize = 0;
        while i < selection.len()
            invariant
                i <= selection.len(),
                sv == strings_view(selection@),
                no_repeats(sv),
                pred == (|x: Seq<char>| x != status@),
                strings_view(kept@) == sv.take(i as int).filter(pred),
                forall|a: int, b: int|
                    0 <= a < b < kept@.len() ==> (#[trigger] kept@[a])@ != (#[trigger] kept@[b])@,
                forall|a: int| 0 <= a < kept@.len() ==> sv.take(i as int).contains(#[trigger] kept@[a]@),
            decreases selection.len() - i,
        {
            proof {
                assert(sv.take(i + 1).drop_last() =~= sv.take(i as int));
                reveal_with_fuel(Seq::filter, 1);
            }
            if !str_eq(selection[i].as_str(), status) {
                let ghost before = kept@;
                kept.push(owned(selection[i].as_str()));
                assert(strings_view(kept@) =~= strings_view(before).push(sv[i as int]));
                assert forall|a: int| 0 <= a < kept@.len() implies sv.take(i + 1).contains(#[trigger] kept@[a]@) by {
                    if a < kept@.len() - 1 {
                        let w = choose|w: int| 0 <= w < i && sv.take(i as int)[w] == kept@[a]@;
                        assert(sv.take(i + 1)[w] == kept@[a]@);
                    } else {
                        assert(sv.take(i + 1)[i as int] == kept@[a]@);
                    }
                }
                assert forall|a: int, b: int| 0 <= a < b < kept@.len() implies (#[trigger] kept@[a])@ != (#[trigger] kept@[b])@ by {
                    if b == kept@.len() - 1 {
                        let w = choose|w: int| 0 <= w < i && sv.take(i as int)[w] == kept@[a]@;
                        assert(sv[w] == kept@[a]@);
                        assert(sv[i as int] == kept@[b]@);
                    }
                }
            } else {
                assert forall|a: int| 0 <= a < kept@.len() implies sv.take(i + 1).contains(#[trigger] kept@[a]@) by {
                    let w = choose|w: int| 0 <= w < i && sv.take(i as int)[w] == kept@[a]@;
                    assert(sv.take(i + 1)[w] == kept@[a]@);
                }
            }
            i = i + 1;
        }
        assert(sv.take(selection.len() as int) =~= sv);
        *selection = kept;
    } else {
        let ghost before = selection@;
        selection.push(owned(status));
        assert(strings_view(selection@) =~= strings_view(before).push(status@));
    }
}

/// Clicking a status button twice leaves the selection holding the same
/// statuses.
pub proof fn law_toggle_twice(s: Seq<Seq<char>>, status: Seq<char>, once: Seq<Seq<char>>, twice: Seq<Seq<char>>)
    requires
        no_repeats(s),
        s.contains(status) ==> once == s.filter(|x: Seq<char>| x != status),
        !s.contains(status) ==> once == s.push(status),
        once.contains(status) ==> twice == once.filter(|x: Seq<char>| x != status),
        !once.contains(status) ==> twice == once.push(status),
    ensures
        forall|x: Seq<char>| #[trigger] twice.contains(x) <==> s.contains(x),
{
    let pred = |x: Seq<char>| x != status;
    if s.contains(status) {
        lemma_filter_contains(s, status);
        assert(!once.contains(status));
        assert forall|x: Seq<char>| #[trigger] twice.contains(x) <==> s.contains(x) by {
            assert(twice[twice.len() - 1] == status);
            if x != status {
                lemma_filter_keeps(s, status, x);
                if twice.contains(x) {
                    let k = choose|k: int| 0 <= k < twice.len() && twice[k] == x;
                    assert(k < once.len());
                    assert(twice[k] == once[k]);
                }
                if once.contains(x) {
                    let k = choose|k: int| 0 <= k < once.len() && once[k] == x;
                    assert(twice[k] == x);
                }
            }
        }
    } else {
        assert(once.contains(status)) by {
            assert(once[once.len() - 1] == status);
        }
        lemma_filter_contains(once, status);
        assert forall|x: Seq<char>| #[trigger] twice.contains(x) <==> s.contains(x) by {
            if x != status {
                lemma_filter_keeps(once, status, x);
                if s.contains(x) {
                    let k = choose|k: int| 0 <= k < s.len() && s[k] == x;
                    assert(once[k] == x);
                }
                if once.contains(x) {
                    let k = choose|k: int| 0 <= k < once.len() && once[k] == x;
                    if k < s.len() {
                        assert(s[k] == x);
                    }
                }
            } else {
                assert(!twice.contains(status));
            }
        }
    }
}

proof fn lemma_filter_contains(s: Seq<Seq<char>>, status: Seq<char>)
    ensures
        !s.filter(|x: Seq<char>| x != status).contains(status),
{
    let pred = |x: Seq<char>| x != status;
    let f = s.filter(pred);
    s.filter_lemma(pred);
    if f.contains(status) {
        let k = choose|k: int| 0 <= k < f.len() && f[k] == status;
        assert(pred(f[k]));
    }
}

proof fn lemma_filter_keeps(s: Seq<Seq<char>>, status: Seq<char>, x: Seq<char>)
    requires
        x != status,
    ensures
        s.filter(|y: Seq<char>| y != status).contains(x) <==> s.contains(x),
{
    let pred = |y: Seq<char>| y != status;
    let f = s.filter(pred);
    if s.contains(x) {
        let k = choose|k: int| 0 <= k < s.len() && s[k] == x;
        s.lemma_filter_contains(pred, k);
    }
    if f.contains(x) {
        s.lemma_filter_contains_rev(pred, x);
    }
}

// ── The detail page ──────────────────────────────────────────────────────────
/// How long ago the last heartbeat came: seconds under a minute, whole
/// minutes after; a heartbeat from the future counts as now.
pub open spec fn heartbeat_text_of(elapsed_secs: int) -> Seq<char> {
    let secs: int = if elapsed_secs < 0 {
        0
    } else {
        elapsed_secs
    };
    if secs < 60 {
        nat_decimal(secs as nat) + "s ago"@
    } else {
        nat_decimal((secs / 60) as nat) + "m ago"@
    }
}

/// `elapsed_secs` is the whole seconds from the heartbeat to now.
pub fn heartbeat_text(elapsed_secs: i128) -> (r: String)
    requires
        elapsed_secs <= 0x1_0000_0000_0000_0003,
    ensures
        r@ == heartbeat_text_of(elapsed_secs as int),
{
    let secs: u128 = if elapsed_secs < 0 {
        0
    } else {
        elapsed_secs as u128
    };
    if secs < 60 {
        let mut out = u64_decimal(secs as u64);
        push_str(&mut out, "s ago");
        string_of(&out)
    } else {
        let mut out = u64_decimal((secs / 60) as u64);
        push_str(&mut out, "m ago");
        string_of(&out)
    }
}

/// How long ago the last heartbeat came, by the clock.
pub fn heartbeat_ago(last: Moment) -> (r: String)
    requires
        last.nanos < 2_000_000_000,
    ensures
        exists|now: Moment| r@ == heartbeat_text_of(#[trigger] elapsed_secs(now, last)),
{
    let now = utc_now();
    let secs = whole_secs_between(now, last);
    let r = heartbeat_text(secs);
    assert(r@ == heartbeat_text_of(elapsed_secs(now, last)));
    r
}

/// The log levels a plugin can be set to.
pub fn log_levels() -> (r: Vec<&'static str>)
    ensures
        r@.len() == 5,
        r@[0]@ == "trace"@,
        r@[1]@ == "debug"@,
        r@[2]@ == "info"@,
        r@[3]@ == "warn"@,
        r@[4]@ == "error"@,
{
    vec!["trace", "debug", "info", "warn", "error"]
}

/// The level the picker shows: the plugin's, or `info`.
pub fn current_log_level(level: &Option<String>) -> (r: String)
    ensures
        r@ == match level {
            Some(l) => l@,
            None => "info"@,
        },
{
    match level {
        Some(l) => owned(l.as_str()),
        None => owned("info"),
    }
}

/// The body that sets a plugin's log level.
pub fn log_level_body(level: &str) -> (r: Json)
    ensures
        r@ == JsonV::Obj(seq![("log_level"@, JsonV::Str(level@))]),
{
    let mut entries: Vec<(String, Json)> = Vec::new();
    entries.push((owned("log_level"), json_string(level)));
    assert(entries_view(entries@) =~= seq![("log_level"@, JsonV::Str(level@))]);
    make_object(entries)
}

/// The error shown when the configuration cannot be read: none where the
/// plugin has no configuration to show, else `Config: …`.
pub open spec fn config_error_of(e: Seq<char>) -> Option<Seq<char>> {
    if contains_sub(e, "not found"@) || contains_sub(e, "not available"@) {
        None
    } else {
        Some("Config: "@ + e)
    }
}

pub fn config_error_message(e: &str) -> (r: Option<String>)
    ensures
        crate::json::opt_view(r) == config_error_of(e@),
{
    if str_contains(e, "not found") || str_contains(e, "not available") {
        None
    } else {
        Some(concat2("Config: ", e))
    }
}

/// The body that saves a configuration text.
pub fn config_body(raw: &str) -> (r: Json)
    ensures
        r@ == JsonV::Obj(seq![("raw"@, JsonV::Str(raw@))]),
{
    let mut entries: Vec<(String, Json)> = Vec::new();
    entries.push((owned("raw"), json_string(raw)));
    assert(entries_view(entries@) =~= seq![("raw"@, JsonV::Str(raw@))]);
    make_object(entries)
}

/// The note under the log level picker.
pub fn log_level_note(supports_management: bool) -> (r: &'static str)
    ensures
        r@ == if supports_management {
            "Takes effect immediately"@
        } else {
            "Requires restart"@
        },
{
    if supports_management {
        "Takes effect immediately"
    } else {
        "Requires restart"
    }
}

// ── The thermostat wizard ────────────────────────────────────────────────────
/// Ticking a sensor adds it once; unticking removes every copy.
pub open spec fn sensors_after(v: Seq<Seq<char>>, id: Seq<char>, on: bool) -> Seq<Seq<char>> {
    if on {
        if v.contains(id) {
            v
        } else {
            v.push(id)
        }
    } else {
        v.filter(|s: Seq<char>| s != id)
    }
}

pub fn toggle_sensor(selected: &mut Vec<String>, id: &str, on: bool)
    ensures
        strings_view(final(selected)@) == sensors_after(strings_view(old(selected)@), id@, on),
{
    let ghost sv = strings_view(selected@);
    if on {
        if !list_has(selected, id) {
            let ghost before = selected@;
            selected.push(owned(id));
            assert(strings_view(selected@) =~= strings_view(before).push(id@));
        }
    } else {
        let ghost pred = |s: Seq<char>| s != id@;
        let mut kept: Vec<String> = Vec::new();
        let mut i: usize = 0;
        while i < selected.len()
            invariant
                i <= selected.len(),
                sv == strings_view(selected@),
                pred == (|s: Seq<char>| s != id@),
                strings_view(kept@) == sv.take(i as int).filter(pred),
            decreases selected.len() - i,
        {
            proof {
                assert(sv.take(i + 1).drop_last() =~= sv.take(i as int));
                reveal_with_fuel(Seq::filter, 1);
            }
            if !str_eq(selected[i].as_str(), id) {
                let ghost before = kept@;
                kept.push(owned(selected[i].as_str()));
                assert(strings_view(kept@) =~= strings_view(before).push(sv[i as int]));
            }
            i = i + 1;
        }
        assert(sv.take(selected.len() as int) =~= sv);
        *selected = kept;
    }
}

/// What the wizard fills in for a new thermostat. The setpoint and the
/// hysteresis are the numbers the caller reads from their boxes, as JSON.
pub struct ThermostatDraft {
    pub id: String,
    pub name: String,
    pub sensors: Vec<String>,
    pub setpoint: Json,
    pub hysteresis: Json,
    pub mode: String,
    pub actuator: String,
    pub min_on_secs: u64,
    pub min_off_secs: u64,
}

/// The `add_thermostat` command's body: the draft's configuration, with
/// trimmed id and name, averaging the sensors' `temperature`, its keys in
/// text order.
pub open spec fn thermostat_config_of(d: ThermostatDraft) -> Seq<(Seq<char>, JsonV)> {
    seq![
        ("actuator_device_id"@, JsonV::Str(d.actuator@)),
        ("aggregation"@, JsonV::Str("average"@)),
        ("hysteresis"@, d.hysteresis@),
        ("id"@, JsonV::Str(trimmed(d.id@))),
        ("min_off_secs"@, JsonV::Num(NumV::PosInt(d.min_off_secs as nat))),
        ("min_on_secs"@, JsonV::Num(NumV::PosInt(d.min_on_secs as nat))),
        ("mode"@, JsonV::Str(d.mode@)),
        ("name"@, JsonV::Str(trimmed(d.name@))),
        ("sensor_attribute"@, JsonV::Str("temperature"@)),
        ("sensor_device_ids"@, str_array(strings_view(d.sensors@))),
        ("setpoint"@, d.setpoint@),
    ]
}

pub open spec fn thermostat_body_of(d: ThermostatDraft) -> JsonV {
    JsonV::Obj(seq![("config"@, JsonV::Obj(thermostat_config_of(d)))])
}

pub fn thermostat_body(d: &ThermostatDraft) -> (r: Json)
    ensures
        r@ == thermostat_body_of(*d),
{
    let mut c: Vec<(String, Json)> = Vec::new();
    c.push((owned("actuator_device_id"), json_string(d.actuator.as_str())));
    c.push((owned("aggregation"), json_string("average")));
    c.push((owned("hysteresis"), deep_clone(&d.hysteresis)));
    c.push((owned("id"), Json::Str(trim(d.id.as_str()))));
    c.push((owned("min_off_secs"), Json::Number(JsonNumber::PosInt(d.min_off_secs))));
    c.push((owned("min_on_secs"), Json::Number(JsonNumber::PosInt(d.min_on_secs))));
    c.push((owned("mode"), json_string(d.mode.as_str())));
    c.push((owned("name"), Json::Str(trim(d.name.as_str()))));
    c.push((owned("sensor_attribute"), json_string("temperature")));
    c.push((owned("sensor_device_ids"), str_array_of(&d.sensors)));
    c.push((owned("setpoint"), deep_clone(&d.setpoint)));
    assert(entries_view(c@) =~= thermostat_config_of(*d));
    let config = make_object(c);
    let mut outer: Vec<(String, Json)> = Vec::new();
    outer.push((owned("config"), config));
    assert(entries_view(outer@) =~= seq![("config"@, JsonV::Obj(thermostat_config_of(*d)))]);
    make_object(outer)
}

/// Whether the wizard's Create button is enabled.
pub fn can_create_thermostat(busy: bool, id: &str, name: &str) -> (r: bool)
    ensures
        r == (!busy && trimmed(id@).len() > 0 && trimmed(name@).len() > 0),
{
    if busy {
        return false;
    }
    let i = trim(id);
    let n = trim(name);
    i.as_str().unicode_len() > 0 && n.as_str().unicode_len() > 0
}

/// What the wizard reads of a device.
pub struct WizardDevice {
    pub device_id: String,
    pub name: String,
    pub device_type: Option<String>,
    /// Whether `temperature` is a number, and that number as the caller
    /// writes it to one decimal.
    pub temperature: Option<String>,
    /// Whether `on` is a boolean.
    pub has_on: bool,
}

pub struct WizardDeviceV {
    pub device_id: Seq<char>,
    pub name: Seq<char>,
    pub device_type: Option<Seq<char>>,
    pub temperature: Option<Seq<char>>,
    pub has_on: bool,
}

impl View for WizardDevice {
    type V = WizardDeviceV;

    open spec fn view(&self) -> WizardDeviceV {
        WizardDeviceV {
            device_id: self.device_id@,
            name: self.name@,
            device_type: crate::json::opt_view(self.device_type),
            temperature: crate::json::opt_view(self.temperature),
            has_on: self.has_on,
        }
    }
}

pub open spec fn wizard_view(v: Seq<WizardDevice>) -> Seq<WizardDeviceV> {
    Seq::new(v.len(), |i: int| v[i]@)
}

pub open spec fn not_thermostat(d: WizardDeviceV) -> bool {
    d.device_type != Some("thermostat"@)
}

/// A sensor option: `name (id) — temperature°`, for devices other than
/// thermostats that report a temperature.
pub open spec fn sensor_option(d: WizardDeviceV) -> (Seq<char>, Seq<char>) {
    (
        d.device_id,
        d.name + " ("@ + d.device_id + ") — "@ + match d.temperature {
            Some(t) => t,
            None => Seq::empty(),
        } + "°"@,
    )
}

pub open spec fn sensor_options(v: Seq<WizardDeviceV>) -> Seq<(Seq<char>, Seq<char>)> {
    v.filter(|d: WizardDeviceV| not_thermostat(d) && d.temperature is Some).map_values(
        |d: WizardDeviceV| sensor_option(d),
    )
}

/// An actuator option: `name (id)`, for every device whose `on` attribute
/// is a boolean.
pub open spec fn actuator_options(v: Seq<WizardDeviceV>) -> Seq<(Seq<char>, Seq<char>)> {
    v.filter(|d: WizardDeviceV| d.has_on).map_values(
        |d: WizardDeviceV| (d.device_id, d.name + " ("@ + d.device_id + ")"@),
    )
}

/// Options order by their lower-cased labels.
pub open spec fn option_keys(v: Seq<(Seq<char>, Seq<char>)>) -> Seq<Seq<KeyPartV>> {
    v.map_values(|o: (Seq<char>, Seq<char>)| seq![KeyPartV::Text(unicode_lowercase(o.1))])
}

pub open spec fn pairs_view(v: Seq<(String, String)>) -> Seq<(Seq<char>, Seq<char>)> {
    Seq::new(v.len(), |i: int| (v[i].0@, v[i].1@))
}

/// Sorts options by their lower-cased labels, stably.
pub fn sort_options_by_label(options: Vec<(String, String)>) -> (r: Vec<(String, String)>)
    ensures
        exists|perm: Seq<int>|
            stable_sorted(pairs_view(options@), option_keys(pairs_view(options@)), false, pairs_view(r@), perm),
{
    let ghost ov = pairs_view(options@);
    let mut keys: Vec<Vec<KeyPart>> = Vec::new();
    let mut i: usize = 0;
    while i < options.len()
        invariant
            i <= options.len(),
            ov == pairs_view(options@),
            keys.len() == i,
            keys_view(keys@) == option_keys(ov.take(i as int)),
        decreases options.len() - i,
    {
        let mut k: Vec<KeyPart> = Vec::new();
        k.push(KeyPart::Text(lowercase(options[i].1.as_str())));
        let ghost before = keys@;
        keys.push(k);
        assert(key_view(k@) =~= seq![KeyPartV::Text(unicode_lowercase(ov[i as int].1))]);
        assert(keys_view(keys@) =~= keys_view(before).push(seq![KeyPartV::Text(unicode_lowercase(ov[i as int].1))]));
        assert(option_keys(ov.take(i + 1)) =~= option_keys(ov.take(i as int)).push(
            seq![KeyPartV::Text(unicode_lowercase(ov[i as int].1))],
        ));
        i = i + 1;
    }
    assert(ov.take(options.len() as int) =~= ov);
    let ghost o0 = options@;
    let ghost k0 = keys_view(keys@);
    let sorted = sort_by_keys(options, keys, false);
    proof {
        let perm = choose|perm: Seq<int>| stable_sorted(o0, k0, false, sorted@, perm);
        lemma_sorted_map(o0, k0, false, sorted@, perm, |p: (String, String)| (p.0@, p.1@));
        assert(o0.map_values(|p: (String, String)| (p.0@, p.1@)) =~= pairs_view(o0));
        assert(sorted@.map_values(|p: (String, String)| (p.0@, p.1@)) =~= pairs_view(sorted@));
    }
    sorted
}

/// The sensor picker's options, by lower-cased label.
pub fn therm_sensor_candidates(devices: &Vec<WizardDevice>) -> (r: Vec<(String, String)>)
    ensures
        exists|perm: Seq<int>|
            stable_sorted(
                sensor_options(wizard_view(devices@)),
                option_keys(sensor_options(wizard_view(devices@))),
                false,
                pairs_view(r@),
                perm,
            ),
{
    let ghost dv = wizard_view(devices@);
    let ghost pred = |d: WizardDeviceV| not_thermostat(d) && d.temperature is Some;
    let mut out: Vec<(String, String)> = Vec::new();
    let mut i: usize = 0;
    while i < devices.len()
        invariant
            i <= devices.len(),
            dv == wizard_view(devices@),
            pred == (|d: WizardDeviceV| not_thermostat(d) && d.temperature is Some),
            pairs_view(out@) == dv.take(i as int).filter(pred).map_values(|d: WizardDeviceV| sensor_option(d)),
        decreases devices.len() - i,
    {
        proof {
            assert(dv.take(i + 1).drop_last() =~= dv.take(i as int));
            reveal_with_fuel(Seq::filter, 1);
        }
        let d = &devices[i];
        let is_therm = match &d.device_type {
            Some(t) => str_eq(t.as_str(), "thermostat"),
            None => false,
        };
        match &d.temperature {
            Some(t) => if !is_therm {
                let mut label: Vec<char> = Vec::new();
                push_str(&mut label, d.name.as_str());
                push_str(&mut label, " (");
                push_str(&mut label, d.device_id.as_str());
                push_str(&mut label, ") — ");
                push_str(&mut label, t.as_str());
                push_str(&mut label, "°");
                let ghost before = out@;
                out.push((owned(d.device_id.as_str()), string_of(&label)));
                assert(pairs_view(out@) =~= pairs_view(before).push(sensor_option(dv[i as int])));
                assert(dv.take(i + 1).filter(pred) =~= dv.take(i as int).filter(pred).push(dv[i as int]));
                assert(dv.take(i + 1).filter(pred).map_values(|d: WizardDeviceV| sensor_option(d)) =~= dv.take(
                    i as int,
                ).filter(pred).map_values(|d: WizardDeviceV| sensor_option(d)).push(sensor_option(dv[i as int])));
            },
            None => {},
        }
        i = i + 1;
    }
    assert(dv.take(devices.len() as int) =~= dv);
    assert(sensor_options(dv) == dv.filter(pred).map_values(|d: WizardDeviceV| sensor_option(d)));
    sort_options_by_label(out)
}

/// The actuator picker's options, by lower-cased label.
pub fn therm_actuator_candidates(devices: &Vec<WizardDevice>) -> (r: Vec<(String, String)>)
    ensures
        exists|perm: Seq<int>|
            stable_sorted(
                actuator_options(wizard_view(devices@)),
                option_keys(actuator_options(wizard_view(devices@))),
                false,
                pairs_view(r@),
                perm,
            ),
{
    let ghost dv = wizard_view(devices@);
    let ghost pred = |d: WizardDeviceV| d.has_on;
    let ghost f = |d: WizardDeviceV| (d.device_id, d.name + " ("@ + d.device_id + ")"@);
    let mut out: Vec<(String, String)> = Vec::new();
    let mut i: usize = 0;
    while i < devices.len()
        invariant
            i <= devices.len(),
            dv == wizard_view(devices@),
            pred == (|d: WizardDeviceV| d.has_on),
            f == (|d: WizardDeviceV| (d.device_id, d.name + " ("@ + d.device_id + ")"@)),
            pairs_view(out@) == dv.take(i as int).filter(pred).map_values(f),
        decreases devices.len() - i,
    {
        proof {
            assert(dv.take(i + 1).drop_last() =~= dv.take(i as int));
            reveal_with_fuel(Seq::filter, 1);
        }
        let d = &devices[i];
        if d.has_on {
            let label = concat3(d.name.as_str(), " (", d.device_id.as_str());
            let label = concat2(label.as_str(), ")");
            let ghost before = out@;
            out.push((owned(d.device_id.as_str()), label));
            assert(pairs_view(out@) =~= pairs_view(before).push(f(dv[i as int])));
            assert(dv.take(i + 1).filter(pred) =~= dv.take(i as int).filter(pred).push(dv[i as int]));
            assert(dv.take(i + 1).filter(pred).map_values(f) =~= dv.take(i as int).filter(pred).map_values(f).push(
                f(dv[i as int]),
            ));
        }
        i = i + 1;
    }
    assert(dv.take(devices.len() as int) =~= dv);
    assert(actuator_options(dv) == dv.filter(pred).map_values(f));
    sort_options_by_label(out)
}

} // verus!
