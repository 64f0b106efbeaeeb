//! The rules list: trigger kinds and their labels, the list's filters and
//! orders, the tag options, and the list's local edits.
use vstd::prelude::*;
use crate::text::{
    str_eq, owned, lowercase, chars_of, contains, contains_sub, unicode_lowercase, join,
    join_strings, strings_view, list_has, string_of, push_str, push_chars, u64_decimal,
    nat_decimal, trimmed, trim,
};
use crate::json::{
    Json, JsonV, make_object, json_string, entries_view, str_at_or, str_array, str_array_of,
    string_list_at, str_list_at, lemma_string_items_roundtrip,
};
use crate::sort::{
    KeyPart, KeyPartV, key_order, in_order, key_view, keys_view, stable_sorted, sort_by_keys, lemma_sorted_map,
    text_order, text_compare, lemma_text_order_flip, lemma_text_order_trans, lemma_text_order_eq,
};

verus! {

// ── Trigger kinds ────────────────────────────────────────────────────────────
/// The kind of event that starts a rule.
#[derive(PartialEq, Eq, Structural, Clone, Copy, Debug)]
pub enum TriggerKind {
    DeviceStateChanged,
    DeviceAvailabilityChanged,
    ButtonEvent,
    NumericThreshold,
    TimeOfDay,
    SunEvent,
    Cron,
    Periodic,
    CalendarEvent,
    CustomEvent,
    SystemStarted,
    HubVariableChanged,
    ModeChanged,
    WebhookReceived,
    ManualTrigger,
    MqttMessage,
    DeviceBatteryLow,
    DeviceBatteryRecovered,
}

pub open spec fn trigger_type_of(k: TriggerKind) -> Seq<char> {
    match k {
        TriggerKind::ButtonEvent => "button_event"@,
        TriggerKind::CalendarEvent => "calendar_event"@,
        TriggerKind::Cron => "cron"@,
        TriggerKind::CustomEvent => "custom_event"@,
        TriggerKind::DeviceAvailabilityChanged => "device_availability_changed"@,
        TriggerKind::DeviceBatteryLow => "device_battery_low"@,
        TriggerKind::DeviceBatteryRecovered => "device_battery_recovered"@,
        TriggerKind::DeviceStateChanged => "device_state_changed"@,
        TriggerKind::HubVariableChanged => "hub_variable_changed"@,
        TriggerKind::ManualTrigger => "manual_trigger"@,
        TriggerKind::ModeChanged => "mode_changed"@,
        TriggerKind::MqttMessage => "mqtt_message"@,
        TriggerKind::NumericThreshold => "numeric_threshold"@,
        TriggerKind::Periodic => "periodic"@,
        TriggerKind::SunEvent => "sun_event"@,
        TriggerKind::SystemStarted => "system_started"@,
        TriggerKind::TimeOfDay => "time_of_day"@,
        TriggerKind::WebhookReceived => "webhook_received"@,
    }
}

/// The type text of a trigger kind.
pub fn trigger_type(k: TriggerKind) -> (r: &'static str)
    ensures
        r@ == trigger_type_of(k),
{
    match k {
        TriggerKind::ButtonEvent => "button_event",
        TriggerKind::CalendarEvent => "calendar_event",
        TriggerKind::Cron => "cron",
        TriggerKind::CustomEvent => "custom_event",
        TriggerKind::DeviceAvailabilityChanged => "device_availability_changed",
        TriggerKind::DeviceBatteryLow => "device_battery_low",
        TriggerKind::DeviceBatteryRecovered => "device_battery_recovered",
        TriggerKind::DeviceStateChanged => "device_state_changed",
        TriggerKind::HubVariableChanged => "hub_variable_changed",
        TriggerKind::ManualTrigger => "manual_trigger",
        TriggerKind::ModeChanged => "mode_changed",
        TriggerKind::MqttMessage => "mqtt_message",
        TriggerKind::NumericThreshold => "numeric_threshold",
        TriggerKind::Periodic => "periodic",
        TriggerKind::SunEvent => "sun_event",
        TriggerKind::SystemStarted => "system_started",
        TriggerKind::TimeOfDay => "time_of_day",
        TriggerKind::WebhookReceived => "webhook_received",
    }
}

pub open spec fn trigger_label_of(t: Seq<char>) -> Seq<char> {
    if t == "device_state_changed"@ {
        "Device State"@
    } else if t == "device_availability_changed"@ {
        "Availability"@
    } else if t == "button_event"@ {
        "Button"@
    } else if t == "numeric_threshold"@ {
        "Threshold"@
    } else if t == "time_of_day"@ {
        "Time of Day"@
    } else if t == "sun_event"@ {
        "Sun Event"@
    } else if t == "cron"@ {
        "Cron"@
    } else if t == "periodic"@ {
        "Periodic"@
    } else if t == "calendar_event"@ {
        "Calendar"@
    } else if t == "custom_event"@ {
        "Custom Event"@
    } else if t == "system_started"@ {
        "System Start"@
    } else if t == "hub_variable_changed"@ {
        "Hub Variable"@
    } else if t == "mode_changed"@ {
        "Mode Changed"@
    } else if t == "webhook_received"@ {
        "Webhook"@
    } else if t == "manual_trigger"@ {
        "Manual"@
    } else if t == "device_battery_low"@ {
        "Battery Low"@
    } else if t == "device_battery_recovered"@ {
        "Battery Recovered"@
    } else {
        "Unknown"@
    }
}

pub fn trigger_label(t: &str) -> (r: &'static str)
    ensures
        r@ == trigger_label_of(t@),
{
    if str_eq(t, "device_state_changed") {
        "Device State"
    } else if str_eq(t, "device_availability_changed") {
        "Availability"
    } else if str_eq(t, "button_event") {
        "Button"
    } else if str_eq(t, "numeric_threshold") {
        "Threshold"
    } else if str_eq(t, "time_of_day") {
        "Time of Day"
    } else if str_eq(t, "sun_event") {
        "Sun Event"
    } else if str_eq(t, "cron") {
        "Cron"
    } else if str_eq(t, "periodic") {
        "Periodic"
    } else if str_eq(t, "calendar_event") {
        "Calendar"
    } else if str_eq(t, "custom_event") {
        "Custom Event"
    } else if str_eq(t, "system_started") {
        "System Start"
    } else if str_eq(t, "hub_variable_changed") {
        "Hub Variable"
    } else if str_eq(t, "mode_changed") {
        "Mode Changed"
    } else if str_eq(t, "webhook_received") {
        "Webhook"
    } else if str_eq(t, "manual_trigger") {
        "Manual"
    } else if str_eq(t, "device_battery_low") {
        "Battery Low"
    } else if str_eq(t, "device_battery_recovered") {
        "Battery Recovered"
    } else {
        "Unknown"
    }
}

pub open spec fn is_device_trigger(t: Seq<char>) -> bool {
    t == "device_state_changed"@ || t == "device_availability_changed"@ || t == "button_event"@
        || t == "numeric_threshold"@
}

pub open spec fn is_time_trigger(t: Seq<char>) -> bool {
    t == "time_of_day"@ || t == "sun_event"@ || t == "cron"@ || t == "periodic"@ || t == "calendar_event"@
}

pub open spec fn is_event_trigger(t: Seq<char>) -> bool {
    t == "custom_event"@ || t == "system_started"@ || t == "hub_variable_changed"@ || t == "mode_changed"@
        || t == "webhook_received"@
}

pub open spec fn is_battery_trigger(t: Seq<char>) -> bool {
    t == "device_battery_low"@ || t == "device_battery_recovered"@
}

fn device_trigger(t: &str) -> (r: bool)
    ensures
        r == is_device_trigger(t@),
{
    str_eq(t, "device_state_changed") || str_eq(t, "device_availability_changed") || str_eq(t, "button_event")
        || str_eq(t, "numeric_threshold")
}

fn time_trigger(t: &str) -> (r: bool)
    ensures
        r == is_time_trigger(t@),
{
    str_eq(t, "time_of_day") || str_eq(t, "sun_event") || str_eq(t, "cron") || str_eq(t, "periodic") || str_eq(
        t,
        "calendar_event",
    )
}

fn event_trigger(t: &str) -> (r: bool)
    ensures
        r == is_event_trigger(t@),
{
    str_eq(t, "custom_event") || str_eq(t, "system_started") || str_eq(t, "hub_variable_changed") || str_eq(
        t,
        "mode_changed",
    ) || str_eq(t, "webhook_received")
}

fn battery_trigger(t: &str) -> (r: bool)
    ensures
        r == is_battery_trigger(t@),
{
    str_eq(t, "device_battery_low") || str_eq(t, "device_battery_recovered")
}

/// The badge tone of a trigger type.
pub open spec fn trigger_tone_of(t: Seq<char>) -> Seq<char> {
    if is_device_trigger(t) {
        "tone-good"@
    } else if is_time_trigger(t) {
        "tone-warn"@
    } else if is_event_trigger(t) {
        "tone-media"@
    } else if is_battery_trigger(t) {
        "tone-alert"@
    } else {
        "tone-idle"@
    }
}

pub fn trigger_tone(t: &str) -> (r: &'static str)
    ensures
        r@ == trigger_tone_of(t@),
{
    if device_trigger(t) {
        "tone-good"
    } else if time_trigger(t) {
        "tone-warn"
    } else if event_trigger(t) {
        "tone-media"
    } else if battery_trigger(t) {
        "tone-alert"
    } else {
        "tone-idle"
    }
}

/// The filter category of a trigger type: battery triggers count as device
/// triggers.
pub open spec fn trigger_category_of(t: Seq<char>) -> Seq<char> {
    if is_device_trigger(t) || is_battery_trigger(t) {
        "device"@
    } else if is_time_trigger(t) {
        "time"@
    } else if is_event_trigger(t) {
        "event"@
    } else if t == "manual_trigger"@ {
        "manual"@
    } else {
        "other"@
    }
}

pub fn trigger_category(t: &str) -> (r: &'static str)
    ensures
        r@ == trigger_category_of(t@),
{
    if device_trigger(t) || battery_trigger(t) {
        "device"
    } else if time_trigger(t) {
        "time"
    } else if event_trigger(t) {
        "event"
    } else if str_eq(t, "manual_trigger") {
        "manual"
    } else {
        "other"
    }
}

// ── Rows ─────────────────────────────────────────────────────────────────────
/// What the rules list reads of a rule.
pub struct RuleRow {
    pub id: String,
    pub name: String,
    pub enabled: bool,
    pub priority: i32,
    pub error: Option<String>,
    pub tags: Vec<String>,
    pub trigger: TriggerKind,
}

pub struct RuleRowV {
    pub id: Seq<char>,
    pub name: Seq<char>,
    pub enabled: bool,
    pub priority: int,
    pub error: Option<Seq<char>>,
    pub tags: Seq<Seq<char>>,
    pub trigger: TriggerKind,
}

impl View for RuleRow {
    type V = RuleRowV;

    open spec fn view(&self) -> RuleRowV {
        RuleRowV {
            id: self.id@,
            name: self.name@,
            enabled: self.enabled,
            priority: self.priority as int,
            error: crate::json::opt_view(self.error),
            tags: strings_view(self.tags@),
            trigger: self.trigger,
        }
    }
}

pub open spec fn rules_view(v: Seq<RuleRow>) -> Seq<RuleRowV> {
    Seq::new(v.len(), |i: int| v[i]@)
}

fn clone_strings(v: &Vec<String>) -> (r: Vec<String>)
    ensures
        strings_view(r@) == strings_view(v@),
{
    let mut out: Vec<String> = Vec::new();
    let mut i: usize = 0;
    while i < v.len()
        invariant
            i <= v.len(),
            strings_view(out@) == strings_view(v@).take(i as int),
        decreases v.len() - i,
    {
        let ghost before = out@;
        out.push(owned(v[i].as_str()));
        assert(strings_view(out@) =~= strings_view(before).push(v@[i as int]@));
        assert(strings_view(out@) =~= strings_view(v@).take(i + 1));
        i = i + 1;
    }
    assert(strings_view(v@).take(v.len() as int) =~= strings_view(v@));
    out
}

impl RuleRow {
    pub fn duplicate(&self) -> (r: Self)
        ensures
            r@ == self@,
    {
        RuleRow {
            id: owned(self.id.as_str()),
            name: owned(self.name.as_str()),
            enabled: self.enabled,
            priority: self.priority,
            error: match &self.error {
                Some(e) => Some(owned(e.as_str())),
                None => None,
            },
            tags: clone_strings(&self.tags),
            trigger: self.trigger,
        }
    }
}

/// A rule's shown name: `(unnamed)` for an empty one.
pub fn rule_name(r: &RuleRow) -> (res: String)
    ensures
        res@ == if r.name@.len() == 0 {
            "(unnamed)"@
        } else {
            r.name@
        },
{
    if r.name.as_str().unicode_len() == 0 {
        owned("(unnamed)")
    } else {
        owned(r.name.as_str())
    }
}

// ── Order ────────────────────────────────────────────────────────────────────
/// What the rules list is ordered by.
#[derive(PartialEq, Eq, Structural, Clone, Copy, Debug)]
pub enum RuleSortKey {
    Name,
    Priority,
}

pub open spec fn rule_sort_text(k: RuleSortKey) -> Seq<char> {
    match k {
        RuleSortKey::Name => "name"@,
        RuleSortKey::Priority => "priority"@,
    }
}

pub fn sort_key_from_str(s: Option<&str>) -> (r: RuleSortKey)
    ensures
        r == match s {
            Some(t) => if t@ == "priority"@ {
                RuleSortKey::Priority
            } else {
                RuleSortKey::Name
            },
            None => RuleSortKey::Name,
        },
{
    match s {
        Some(t) => if str_eq(t, "priority") {
            RuleSortKey::Priority
        } else {
            RuleSortKey::Name
        },
        None => RuleSortKey::Name,
    }
}

pub fn sort_key_to_str(k: RuleSortKey) -> (r: &'static str)
    ensures
        r@ == rule_sort_text(k),
{
    match k {
        RuleSortKey::Name => "name",
        RuleSortKey::Priority => "priority",
    }
}

/// The sort picker's options.
pub fn sort_options() -> (r: Vec<(String, String)>)
    ensures
        r@.len() == 2,
        r@[0].0@ == "name"@ && r@[0].1@ == "Name"@,
        r@[1].0@ == "priority"@ && r@[1].1@ == "Priority"@,
{
    let mut v: Vec<(String, String)> = Vec::new();
    v.push((owned("name"), owned("Name")));
    v.push((owned("priority"), owned("Priority")));
    v
}

/// The list's key: priority, highest first; or the lower-cased name.
pub open spec fn rule_key(r: RuleRowV, by: RuleSortKey) -> Seq<KeyPartV> {
    match by {
        RuleSortKey::Priority => seq![KeyPartV::Int(-r.priority)],
        RuleSortKey::Name => seq![KeyPartV::Text(unicode_lowercase(r.name))],
    }
}

/// The order rules arrive in: priority, highest first, then lower-cased name.
pub open spec fn default_key(r: RuleRowV) -> Seq<KeyPartV> {
    seq![KeyPartV::Int(-r.priority), KeyPartV::Text(unicode_lowercase(r.name))]
}

pub open spec fn default_keys(v: Seq<RuleRowV>) -> Seq<Seq<KeyPartV>> {
    v.map_values(|r: RuleRowV| default_key(r))
}

/// Sorts rules as they arrive: priority, highest first, then lower-cased
/// name; equal rules keep their order.
pub fn sort_rules_default(rules: Vec<RuleRow>) -> (r: Vec<RuleRow>)
    ensures
        exists|perm: Seq<int>|
            stable_sorted(rules_view(rules@), default_keys(rules_view(rules@)), false, rules_view(r@), perm),
{
    let ghost rv = rules_view(rules@);
    let mut keys: Vec<Vec<KeyPart>> = Vec::new();
    let mut i: usize = 0;
    while i < rules.len()
        invariant
            i <= rules.len(),
            rv == rules_view(rules@),
            keys.len() == i,
            keys_view(keys@) == default_keys(rv.take(i as int)),
        decreases rules.len() - i,
    {
        let mut k: Vec<KeyPart> = Vec::new();
        k.push(KeyPart::Int(-(rules[i].priority as i128)));
        k.push(KeyPart::Text(lowercase(rules[i].name.as_str())));
        assert(key_view(k@) =~= default_key(rv[i as int]));
        let ghost before = keys@;
        keys.push(k);
        assert(keys_view(keys@) =~= keys_view(before).push(default_key(rv[i as int])));
        assert(default_keys(rv.take(i + 1)) =~= default_keys(rv.take(i as int)).push(default_key(rv[i as int])));
        i = i + 1;
    }
    assert(rv.take(rules.len() as int) =~= rv);
    let ghost r0 = rules@;
    let ghost k0 = keys_view(keys@);
    let sorted = sort_by_keys(rules, keys, false);
    proof {
        let perm = choose|perm: Seq<int>| stable_sorted(r0, k0, false, sorted@, perm);
        lemma_sorted_map(r0, k0, false, sorted@, perm, |x: RuleRow| x@);
        assert(r0.map_values(|x: RuleRow| x@) =~= rules_view(r0));
        assert(sorted@.map_values(|x: RuleRow| x@) =~= rules_view(sorted@));
    }
    sorted
}

// ── Filters ──────────────────────────────────────────────────────────────────
/// What the filter bar holds; an empty selection lets every rule through.
pub struct RuleFilter {
    pub search: String,
    /// `active` and/or `disabled`.
    pub status: Vec<String>,
    /// Trigger categories.
    pub trigger: Vec<String>,
    pub tags: Vec<String>,
    /// The rule ids of the chosen group, when one is chosen.
    pub group: Option<Vec<String>>,
}

pub open spec fn status_text(enabled: bool) -> Seq<char> {
    if enabled {
        "active"@
    } else {
        "disabled"@
    }
}

/// Whether a rule passes the filters: in the chosen group; its lower-cased
/// name or space-joined tags hold the lower-cased search; its status, its
/// trigger's category and one of its tags are selected.
pub open spec fn rule_matches(
    r: RuleRowV,
    q: Seq<char>,
    status: Seq<Seq<char>>,
    trigger: Seq<Seq<char>>,
    tags: Seq<Seq<char>>,
    group: Option<Seq<Seq<char>>>,
) -> bool {
    &&& match group {
        Some(ids) => ids.contains(r.id),
        None => true,
    }
    &&& (q.len() == 0 || contains_sub(unicode_lowercase(r.name), q) || contains_sub(
        unicode_lowercase(join(r.tags, " "@)),
        q,
    ))
    &&& (status.len() == 0 || status.contains(status_text(r.enabled)))
    &&& (trigger.len() == 0 || trigger.contains(trigger_category_of(trigger_type_of(r.trigger))))
    &&& (tags.len() == 0 || exists|k: int| 0 <= k < r.tags.len() && tags.contains(#[trigger] r.tags[k]))
}

pub open spec fn group_view(g: Option<Vec<String>>) -> Option<Seq<Seq<char>>> {
    match g {
        Some(v) => Some(strings_view(v@)),
        None => None,
    }
}

pub open spec fn filter_matches(r: RuleRowV, f: RuleFilter) -> bool {
    rule_matches(
        r,
        unicode_lowercase(f.search@),
        strings_view(f.status@),
        strings_view(f.trigger@),
        strings_view(f.tags@),
        group_view(f.group),
    )
}

pub open spec fn rules_kept(v: Seq<RuleRowV>, f: RuleFilter) -> Seq<RuleRowV> {
    v.filter(|r: RuleRowV| filter_matches(r, f))
}

pub open spec fn rule_keys(v: Seq<RuleRowV>, by: RuleSortKey) -> Seq<Seq<KeyPartV>> {
    v.map_values(|r: RuleRowV| rule_key(r, by))
}

fn any_tag_selected(tags: &Vec<String>, selected: &Vec<String>) -> (r: bool)
    ensures
        r == exists|k: int|
            0 <= k < strings_view(tags@).len() && strings_view(selected@).contains(#[trigger] strings_view(tags@)[k]),
{
    let mut i: usize = 0;
    while i < tags.len()
        invariant
            i <= tags.len(),
            forall|k: int| 0 <= k < i ==> !strings_view(selected@).contains(#[trigger] strings_view(tags@)[k]),
        decreases tags.len() - i,
    {
        if list_has(selected, tags[i].as_str()) {
            assert(strings_view(selected@).contains(strings_view(tags@)[i as int]));
            return true;
        }
        i = i + 1;
    }
    false
}

#[verifier::spinoff_prover]
fn matches_rule(r: &RuleRow, f: &RuleFilter, q: &Vec<char>) -> (res: bool)
    requires
        q@ == unicode_lowercase(f.search@),
    ensures
        res == filter_matches(r@, *f),
{
    match &f.group {
        Some(ids) => {
            if !list_has(ids, r.id.as_str()) {
                return false;
            }
        },
        None => {},
    }
    if q.len() > 0 {
        let name = chars_of(lowercase(r.name.as_str()).as_str());
        let joined = join_strings(&r.tags, " ");
        let tags = chars_of(lowercase(joined.as_str()).as_str());
        if !contains(&name, q) && !contains(&tags, q) {
            return false;
        }
    }
    if f.status.len() > 0 {
        let st = if r.enabled { "active" } else { "disabled" };
        if !list_has(&f.status, st) {
            return false;
        }
    }
    if f.trigger.len() > 0 {
        let cat = trigger_category(trigger_type(r.trigger));
        if !list_has(&f.trigger, cat) {
            return false;
        }
    }
    f.tags.len() == 0 || any_tag_selected(&r.tags, &f.tags)
}

fn rule_sort_key(r: &RuleRow, by: RuleSortKey) -> (k: Vec<KeyPart>)
    ensures
        key_view(k@) == rule_key(r@, by),
{
    let mut k: Vec<KeyPart> = Vec::new();
    match by {
        RuleSortKey::Priority => k.push(KeyPart::Int(-(r.priority as i128))),
        RuleSortKey::Name => k.push(KeyPart::Text(lowercase(r.name.as_str()))),
    }
    assert(key_view(k@) =~= rule_key(r@, by));
    k
}

/// Every rule the list shows is one of the rules and matches the search:
/// its lower-cased name or space-joined tags hold the lower-cased search
/// text, unless that text is empty. With no status, trigger, tag or group
/// filter, every rule whose lower-cased name or tags hold the search text
/// is shown.
pub proof fn law_listed_rules(
    rules: Seq<RuleRowV>,
    f: RuleFilter,
    by: RuleSortKey,
    desc: bool,
    out: Seq<RuleRowV>,
    perm: Seq<int>,
)
    requires
        stable_sorted(rules_kept(rules, f), rule_keys(rules_kept(rules, f), by), desc, out, perm),
    ensures
        forall|k: int|
            0 <= k < out.len() ==> rules.contains(#[trigger] out[k]) && (unicode_lowercase(f.search@).len() == 0
                || contains_sub(unicode_lowercase(out[k].name), unicode_lowercase(f.search@)) || contains_sub(
                unicode_lowercase(join(out[k].tags, " "@)),
                unicode_lowercase(f.search@),
            )) && (f.status@.len() > 0 ==> strings_view(f.status@).contains(
                if out[k].enabled {
                    "active"@
                } else {
                    "disabled"@
                },
            )) && (f.group matches Some(ids) ==> strings_view(ids@).contains(out[k].id)),
        f.status@.len() == 0 && f.trigger@.len() == 0 && f.tags@.len() == 0 && f.group is None ==> forall|i: int|
            0 <= i < rules.len() && (contains_sub(unicode_lowercase(rules[i].name), unicode_lowercase(f.search@))
                || contains_sub(unicode_lowercase(join(rules[i].tags, " "@)), unicode_lowercase(f.search@)))
                ==> out.contains(#[trigger] rules[i]),
{
    let kept = rules_kept(rules, f);
    let pred = |r: RuleRowV| filter_matches(r, f);
    crate::sort::lemma_sorted_same_items(kept, rule_keys(kept, by), desc, out, perm);
    rules.filter_lemma(pred);
    reveal_strlit("active");
    reveal_strlit("disabled");
    assert forall|k: int| 0 <= k < out.len() implies rules.contains(#[trigger] out[k]) && filter_matches(out[k], f) by {
        assert(kept.contains(out[k]));
        let j = choose|j: int| 0 <= j < kept.len() && kept[j] == out[k];
        assert(pred(kept[j]));
        rules.lemma_filter_contains_rev(pred, out[k]);
    }
    if f.status@.len() == 0 && f.trigger@.len() == 0 && f.tags@.len() == 0 && f.group is None {
        assert forall|i: int|
            0 <= i < rules.len() && (contains_sub(unicode_lowercase(rules[i].name), unicode_lowercase(f.search@))
                || contains_sub(unicode_lowercase(join(rules[i].tags, " "@)), unicode_lowercase(f.search@)))
                implies out.contains(#[trigger] rules[i]) by {
            assert(pred(rules[i]));
            assert(kept.contains(rules[i]));
            let j = choose|j: int| 0 <= j < kept.len() && kept[j] == rules[i];
            assert(out.contains(kept[j]));
        }
    }
}

/// Sorted by priority, the list runs from the highest priority down (from
/// the lowest up when reversed); sorted by name, it runs in the order of the
/// lower-cased names (reversed when descending).
pub proof fn law_rules_order(
    rules: Seq<RuleRowV>,
    f: RuleFilter,
    by: RuleSortKey,
    desc: bool,
    out: Seq<RuleRowV>,
    perm: Seq<int>,
)
    requires
        stable_sorted(rules_kept(rules, f), rule_keys(rules_kept(rules, f), by), desc, out, perm),
    ensures
        forall|k: int|
            0 <= k < out.len() - 1 ==> {
                &&& (by == RuleSortKey::Priority && !desc ==> (#[trigger] out[k]).priority >= out[k + 1].priority)
                &&& (by == RuleSortKey::Priority && desc ==> out[k].priority <= out[k + 1].priority)
                &&& (by == RuleSortKey::Name && !desc ==> text_order(
                    unicode_lowercase(out[k].name),
                    unicode_lowercase(out[k + 1].name),
                ) <= 0)
                &&& (by == RuleSortKey::Name && desc ==> text_order(
                    unicode_lowercase(out[k].name),
                    unicode_lowercase(out[k + 1].name),
                ) >= 0)
            },
{
    let kept = rules_kept(rules, f);
    let keys = rule_keys(kept, by);
    reveal_with_fuel(key_order, 2);
    assert forall|k: int| 0 <= k < out.len() - 1 implies {
        &&& (by == RuleSortKey::Priority && !desc ==> (#[trigger] out[k]).priority >= out[k + 1].priority)
        &&& (by == RuleSortKey::Priority && desc ==> out[k].priority <= out[k + 1].priority)
        &&& (by == RuleSortKey::Name && !desc ==> text_order(
            unicode_lowercase(out[k].name),
            unicode_lowercase(out[k + 1].name),
        ) <= 0)
        &&& (by == RuleSortKey::Name && desc ==> text_order(
            unicode_lowercase(out[k].name),
            unicode_lowercase(out[k + 1].name),
        ) >= 0)
    } by {
        assert(in_order(keys[perm[k]], keys[perm[k + 1]], desc));
        assert(out[k] == kept[perm[k]] && out[k + 1] == kept[perm[k + 1]]);
        assert(keys[perm[k]] == rule_key(out[k], by));
        assert(keys[perm[k + 1]] == rule_key(out[k + 1], by));
        assert(rule_key(out[k], by).drop_first() =~= Seq::<KeyPartV>::empty());
        assert(rule_key(out[k + 1], by).drop_first() =~= Seq::<KeyPartV>::empty());
    }
}

/// The rules that pass the filters, in the chosen order, reversed when
/// `desc`; rules with equal keys keep their order.
pub fn filtered_rules(rules: &Vec<RuleRow>, filter: &RuleFilter, sort_by: RuleSortKey, desc: bool) -> (r: Vec<RuleRow>)
    ensures
        ({
            let kept = rules_kept(rules_view(rules@), *filter);
            exists|perm: Seq<int>| stable_sorted(kept, rule_keys(kept, sort_by), desc, rules_view(r@), perm)
        }),
{
    let q = chars_of(lowercase(filter.search.as_str()).as_str());
    let ghost rv = rules_view(rules@);
    let ghost pred = |x: RuleRowV| filter_matches(x, *filter);
    let mut kept: Vec<RuleRow> = Vec::new();
    let mut keys: Vec<Vec<KeyPart>> = Vec::new();
    let mut i: usize = 0;
    while i < rules.len()
        invariant
            i <= rules.len(),
            rv == rules_view(rules@),
            q@ == unicode_lowercase(filter.search@),
            pred == (|x: RuleRowV| filter_matches(x, *filter)),
            kept.len() == keys.len(),
            rules_view(kept@) == rv.take(i as int).filter(pred),
            keys_view(keys@) == rule_keys(rv.take(i as int).filter(pred), sort_by),
        decreases rules.len() - i,
    {
        proof {
            assert(rv.take(i + 1).drop_last() =~= rv.take(i as int));
            reveal_with_fuel(Seq::filter, 1);
        }
        if matches_rule(&rules[i], filter, &q) {
            let ghost b_kept = kept@;
            let ghost b_keys = keys@;
            kept.push(rules[i].duplicate());
            keys.push(rule_sort_key(&rules[i], sort_by));
            assert(rules_view(kept@) =~= rules_view(b_kept).push(rv[i as int]));
            assert(keys_view(keys@) =~= keys_view(b_keys).push(rule_key(rv[i as int], sort_by)));
            assert(rule_keys(rv.take(i + 1).filter(pred), sort_by) =~= rule_keys(rv.take(i as int).filter(pred), sort_by).push(
                rule_key(rv[i as int], sort_by),
            ));
        }
        i = i + 1;
    }
    assert(rv.take(rules.len() as int) =~= rv);
    let ghost k_items = kept@;
    let ghost k_keys = keys_view(keys@);
    let sorted = sort_by_keys(kept, keys, desc);
    proof {
        let perm = choose|perm: Seq<int>| stable_sorted(k_items, k_keys, desc, sorted@, perm);
        lemma_sorted_map(k_items, k_keys, desc, sorted@, perm, |x: RuleRow| x@);
        assert(k_items.map_values(|x: RuleRow| x@) =~= rules_view(k_items));
        assert(sorted@.map_values(|x: RuleRow| x@) =~= rules_view(sorted@));
        assert(rules_kept(rv, *filter) == rv.filter(pred));
        assert(stable_sorted(rules_kept(rv, *filter), rule_keys(rules_kept(rv, *filter), sort_by), desc, rules_view(sorted@), perm));
    }
    sorted
}

/// The heading's count: `N rules`, or `shown / N rules` while filtering.
pub open spec fn rules_heading_of(shown: nat, total: nat) -> Seq<char> {
    if shown == total {
        nat_decimal(total) + " rules"@
    } else {
        nat_decimal(shown) + " / "@ + nat_decimal(total) + " rules"@
    }
}

pub fn rules_heading(shown: usize, total: usize) -> (r: String)
    ensures
        r@ == rules_heading_of(shown as nat, total as nat),
{
    let mut out: Vec<char> = Vec::new();
    if shown != total {
        let s = u64_decimal(shown as u64);
        push_chars(&mut out, &s);
        push_str(&mut out, " / ");
    }
    let t = u64_decimal(total as u64);
    push_chars(&mut out, &t);
    push_str(&mut out, " rules");
    string_of(&out)
}

// ── Tag options ──────────────────────────────────────────────────────────────
/// Strictly ascending texts: sorted, each once.
pub open spec fn strictly_sorted(v: Seq<Seq<char>>) -> bool {
    forall|i: int, j: int| 0 <= i < j < v.len() ==> text_order(#[trigger] v[i], #[trigger] v[j]) == -1
}

/// Whether a text is a tag of one of the rules.
pub open spec fn is_some_tag(rules: Seq<RuleRowV>, t: Seq<char>) -> bool {
    exists|i: int| 0 <= i < rules.len() && #[trigger] rules[i].tags.contains(t)
}

/// Inserts a text into a strictly ascending list, unless it is there.
pub fn insert_sorted(list: &mut Vec<String>, t: &String)
    requires
        strictly_sorted(strings_view(old(list)@)),
    ensures
        strictly_sorted(strings_view(final(list)@)),
        forall|x: Seq<char>|
            #[trigger] strings_view(final(list)@).contains(x) <==> (strings_view(old(list)@).contains(x) || x
                == t@),
{
    let ghost lv = strings_view(list@);
    let mut p: usize = 0;
    let mut at_end = false;
    // Every text before `p` is smaller than `t`.
    while p < list.len() && !at_end
        invariant
            p <= list.len(),
            lv == strings_view(list@),
            strictly_sorted(lv),
            forall|k: int| 0 <= k < p ==> text_order(#[trigger] lv[k], t@) == -1,
            at_end ==> p < list.len() && text_order(lv[p as int], t@) >= 0,
        decreases list.len() - p, if at_end { 0int } else { 1int },
    {
        let c = text_compare(&list[p], t);
        proof {
            lemma_text_order_flip(lv[p as int], t@);
        }
        if c < 0 {
            p = p + 1;
        } else {
            at_end = true;
        }
    }
    if p < list.len() && text_compare(&list[p], t) == 0 {
        proof {
            lemma_text_order_eq(lv[p as int], t@);
            assert forall|x: Seq<char>| #[trigger] lv.contains(x) <==> (lv.contains(x) || x == t@) by {
                if x == t@ {
                    assert(lv[p as int] == x);
                }
            }
        }
        return;
    }
    proof {
        if p < list.len() {
            lemma_text_order_flip(lv[p as int], t@);
        }
    }
    let ghost before = list@;
    list.insert(p, owned(t.as_str()));
    proof {
        let nv = strings_view(list@);
        assert(nv =~= lv.insert(p as int, t@));
        assert forall|i: int, j: int| 0 <= i < j < nv.len() implies text_order(#[trigger] nv[i], #[trigger] nv[j]) == -1 by {
            if j < p {
                assert(nv[i] == lv[i] && nv[j] == lv[j]);
            } else if j == p {
                assert(nv[i] == lv[i]);
            } else if i == p {
                assert(nv[j] == lv[j - 1]);
                if j - 1 > p {
                    assert(text_order(lv[p as int], lv[j - 1]) == -1);
                    lemma_text_order_trans(t@, lv[p as int], lv[j - 1]);
                }
            } else if i < p {
                assert(nv[i] == lv[i] && nv[j] == lv[j - 1]);
            } else {
                assert(nv[i] == lv[i - 1] && nv[j] == lv[j - 1]);
            }
        }
        assert forall|x: Seq<char>| #[trigger] nv.contains(x) <==> (lv.contains(x) || x == t@) by {
            if nv.contains(x) {
                let k = choose|k: int| 0 <= k < nv.len() && nv[k] == x;
                if k < p {
                    assert(lv[k] == x);
                } else if k > p {
                    assert(lv[k - 1] == x);
                }
            }
            if lv.contains(x) {
                let k = choose|k: int| 0 <= k < lv.len() && lv[k] == x;
                if k < p {
                    assert(nv[k] == x);
                } else {
                    assert(nv[k + 1] == x);
                }
            }
            if x == t@ {
                assert(nv[p as int] == x);
            }
        }
    }
}

/// The tag picker's options: every tag of the rules once, in text order.
pub fn tag_options(rules: &Vec<RuleRow>) -> (r: Vec<String>)
    ensures
        strictly_sorted(strings_view(r@)),
        forall|t: Seq<char>| #[trigger] strings_view(r@).contains(t) <==> is_some_tag(rules_view(rules@), t),
{
    let ghost rv = rules_view(rules@);
    let mut out: Vec<String> = Vec::new();
    let mut i: usize = 0;
    while i < rules.len()
        invariant
            i <= rules.len(),
            rv == rules_view(rules@),
            strictly_sorted(strings_view(out@)),
            forall|t: Seq<char>|
                #[trigger] strings_view(out@).contains(t) <==> is_some_tag(rv.take(i as int), t),
        decreases rules.len() - i,
    {
        let tags = &rules[i].tags;
        let mut k: usize = 0;
        while k < tags.len()
            invariant
                i < rules.len(),
                k <= tags.len(),
                *tags == rules@[i as int].tags,
                rv == rules_view(rules@),
                strictly_sorted(strings_view(out@)),
                forall|t: Seq<char>|
                    #[trigger] strings_view(out@).contains(t) <==> (is_some_tag(rv.take(i as int), t)
                        || strings_view(tags@).take(k as int).contains(t)),
            decreases tags.len() - k,
        {
            let ghost before = strings_view(out@);
            insert_sorted(&mut out, &tags[k]);
            proof {
                let tv = strings_view(tags@);
                assert forall|t: Seq<char>| #[trigger] strings_view(out@).contains(t) <==> (is_some_tag(
                    rv.take(i as int),
                    t,
                ) || tv.take(k + 1).contains(t)) by {
                    if tv.take(k + 1).contains(t) {
                        let w = choose|w: int| 0 <= w < k + 1 && #[trigger] tv.take(k + 1)[w] == t;
                        if w < k {
                            assert(tv.take(k as int)[w] == t);
                        }
                    }
                    if tv.take(k as int).contains(t) {
                        let w = choose|w: int| 0 <= w < k && #[trigger] tv.take(k as int)[w] == t;
                        assert(tv.take(k + 1)[w] == t);
                    }
                    if t == tv[k as int] {
                        assert(tv.take(k + 1)[k as int] == t);
                    }
                }
            }
            k = k + 1;
        }
        proof {
            let tv = strings_view(tags@);
            assert(tv.take(tags.len() as int) =~= tv);
            assert(rv[i as int].tags == tv);
            assert forall|t: Seq<char>| #[trigger] strings_view(out@).contains(t) <==> is_some_tag(rv.take(i + 1), t) by {
                if is_some_tag(rv.take(i + 1), t) {
                    let w = choose|w: int| 0 <= w < rv.take(i + 1).len() && #[trigger] rv.take(i + 1)[w].tags.contains(t);
                    if w < i {
                        assert(rv.take(i as int)[w] == rv.take(i + 1)[w]);
                    }
                }
                if is_some_tag(rv.take(i as int), t) {
                    let w = choose|w: int| 0 <= w < rv.take(i as int).len() && #[trigger] rv.take(i as int)[w].tags.contains(t);
                    assert(rv.take(i + 1)[w] == rv.take(i as int)[w]);
                }
                if tv.contains(t) {
                    assert(rv.take(i + 1)[i as int].tags.contains(t));
                }
            }
        }
        i = i + 1;
    }
    assert(rv.take(rules.len() as int) =~= rv);
    out
}

// ── Local edits ──────────────────────────────────────────────────────────────
/// The body that enables or disables a rule.
pub fn enabled_body(enabled: bool) -> (r: Json)
    ensures
        r@ == JsonV::Obj(seq![("enabled"@, JsonV::Bool(enabled))]),
{
    let mut entries: Vec<(String, Json)> = Vec::new();
    entries.push((owned("enabled"), Json::Bool(enabled)));
    assert(entries_view(entries@) =~= seq![("enabled"@, JsonV::Bool(enabled))]);
    make_object(entries)
}

/// The first rule with an id.
pub open spec fn first_with_id(v: Seq<RuleRowV>, id: Seq<char>) -> Option<int>
    decreases v.len(),
{
    if v.len() == 0 {
        None
    } else {
        match first_with_id(v.drop_last(), id) {
            Some(p) => Some(p),
            None => if v.last().id == id {
                Some(v.len() - 1)
            } else {
                None
            },
        }
    }
}

/// After a toggle succeeds, the first rule with the id holds the new state.
pub fn set_rule_enabled(rules: &mut Vec<RuleRow>, id: &str, enabled: bool)
    ensures
        rules_view(final(rules)@) == match first_with_id(rules_view(old(rules)@), id@) {
            Some(p) => rules_view(old(rules)@).update(p, RuleRowV { enabled, ..rules_view(old(rules)@)[p] }),
            None => rules_view(old(rules)@),
        },
{
    let ghost rv = rules_view(rules@);
    let mut i: usize = 0;
    while i < rules.len()
        invariant
            i <= rules.len(),
            rv == rules_view(rules@),
            rules@ == old(rules)@,
            first_with_id(rv.take(i as int), id@) is None,
        decreases rules.len() - i,
    {
        proof {
            assert(rv.take(i + 1).drop_last() =~= rv.take(i as int));
        }
        if str_eq(rules[i].id.as_str(), id) {
            let mut r = rules[i].duplicate();
            r.enabled = enabled;
            rules.set(i, r);
            proof {
                assert(first_with_id(rv.take(i + 1), id@) == Some(i as int));
                lemma_first_with_id_prefix(rv, id@, i as int);
                assert(rules_view(rules@) =~= rv.update(i as int, RuleRowV { enabled, ..rv[i as int] }));
            }
            return;
        }
        i = i + 1;
    }
    proof {
        assert(rv.take(rules.len() as int) =~= rv);
    }
}

proof fn lemma_first_with_id_prefix(v: Seq<RuleRowV>, id: Seq<char>, n: int)
    requires
        0 <= n < v.len(),
        first_with_id(v.take(n + 1), id) is Some,
    ensures
        first_with_id(v, id) == first_with_id(v.take(n + 1), id),
    decreases v.len(),
{
    if v.len() > n + 1 {
        assert(v.drop_last().take(n + 1) =~= v.take(n + 1));
        lemma_first_with_id_prefix(v.drop_last(), id, n);
    } else {
        assert(v.take(n + 1) =~= v);
    }
}

/// After a delete succeeds, every rule with the id leaves.
pub fn remove_rule(rules: &mut Vec<RuleRow>, id: &str)
    ensures
        rules_view(final(rules)@) == rules_view(old(rules)@).filter(|r: RuleRowV| r.id != id@),
{
    let ghost rv = rules_view(rules@);
    let ghost pred = |r: RuleRowV| r.id != id@;
    let mut kept: Vec<RuleRow> = Vec::new();
    let mut i: usize = 0;
    while i < rules.len()
        invariant
            i <= rules.len(),
            rv == rules_view(rules@),
            pred == (|r: RuleRowV| r.id != id@),
            rules_view(kept@) == rv.take(i as int).filter(pred),
        decreases rules.len() - i,
    {
        proof {
            assert(rv.take(i + 1).drop_last() =~= rv.take(i as int));
            reveal_with_fuel(Seq::filter, 1);
        }
        if !str_eq(rules[i].id.as_str(), id) {
            let ghost before = kept@;
            kept.push(rules[i].duplicate());
            assert(rules_view(kept@) =~= rules_view(before).push(rv[i as int]));
        }
        i = i + 1;
    }
    assert(rv.take(rules.len() as int) =~= rv);
    *rules = kept;
}

/// A cloned rule joins the top of the list.
pub fn add_cloned_rule(rules: &mut Vec<RuleRow>, rule: RuleRow)
    ensures
        rules_view(final(rules)@) == seq![rule@] + rules_view(old(rules)@),
{
    let ghost before = rules@;
    rules.insert(0, rule);
    assert(rules_view(rules@) =~= seq![rule@] + rules_view(before));
}

/// Clicking a tag filters by it: it joins the tag selection once.
pub fn add_tag_filter(selection: &mut Vec<String>, tag: &str)
    ensures
        strings_view(final(selection)@) == if strings_view(old(selection)@).contains(tag@) {
            strings_view(old(selection)@)
        } else {
            strings_view(old(selection)@).push(tag@)
        },
{
    if !list_has(selection, tag) {
        let ghost before = selection@;
        selection.push(owned(tag));
        assert(strings_view(selection@) =~= strings_view(before).push(tag@));
    }
}

/// A rule's checkbox: ticking adds the id once, unticking removes it.
pub fn toggle_selected(selected: &mut Vec<String>, id: &str, checked: bool)
    ensures
        strings_view(final(selected)@) == crate::plugins::sensors_after(strings_view(old(selected)@), id@, checked),
{
    crate::plugins::toggle_sensor(selected, id, checked);
}

/// The stale-reference banner: how many rules point at deleted devices.
pub fn stale_heading(count: usize) -> (r: String)
    ensures
        r@ == " "@ + nat_decimal(count as nat) + " rule(s) reference deleted devices:"@,
{
    let mut out: Vec<char> = Vec::new();
    push_str(&mut out, " ");
    let d = u64_decimal(count as u64);
    push_chars(&mut out, &d);
    push_str(&mut out, " rule(s) reference deleted devices:");
    string_of(&out)
}

// ── Groups ───────────────────────────────────────────────────────────────────
/// The group count beside the groups button: nothing, or `(n)`.
pub fn group_count_text(n: usize) -> (r: String)
    ensures
        r@ == if n == 0 {
            Seq::<char>::empty()
        } else {
            "("@ + nat_decimal(n as nat) + ")"@
        },
{
    if n == 0 {
        let e = Vec::new();
        let r = string_of(&e);
        assert(r@ =~= Seq::<char>::empty());
        r
    } else {
        let mut out: Vec<char> = Vec::new();
        push_str(&mut out, "(");
        let d = u64_decimal(n as u64);
        push_chars(&mut out, &d);
        push_str(&mut out, ")");
        string_of(&out)
    }
}

/// Clicking a group's name chooses it, or clears the choice when it was the
/// chosen one.
pub fn select_group(active: &Option<String>, gid: &str) -> (r: Option<String>)
    ensures
        crate::json::opt_view(r) == if crate::json::opt_view(*active) == Some(gid@) {
            None
        } else {
            Some(gid@)
        },
{
    match active {
        Some(a) => if str_eq(a.as_str(), gid) {
            None
        } else {
            Some(owned(gid))
        },
        None => Some(owned(gid)),
    }
}

/// After a group is deleted the choice is cleared if it was that group.
pub fn after_group_deleted(active: &Option<String>, gid: &str) -> (r: Option<String>)
    ensures
        crate::json::opt_view(r) == if crate::json::opt_view(*active) == Some(gid@) {
            None
        } else {
            crate::json::opt_view(*active)
        },
{
    match active {
        Some(a) => if str_eq(a.as_str(), gid) {
            None
        } else {
            Some(owned(a.as_str()))
        },
        None => None,
    }
}

/// Whether the Create group button is enabled.
pub fn can_create_group(busy: bool, name: &str) -> (r: bool)
    ensures
        r == (!busy && trimmed(name@).len() > 0),
{
    if busy {
        return false;
    }
    let t = trim(name);
    t.as_str().unicode_len() > 0
}

// ── Saved preferences ────────────────────────────────────────────────────────
/// The filter bar as it is saved between visits.
pub struct RulesPrefs {
    pub search: String,
    pub status: Vec<String>,
    pub trigger: Vec<String>,
    pub tags: Vec<String>,
    pub sort: RuleSortKey,
    pub desc: bool,
}

pub struct RulesPrefsV {
    pub search: Seq<char>,
    pub status: Seq<Seq<char>>,
    pub trigger: Seq<Seq<char>>,
    pub tags: Seq<Seq<char>>,
    pub sort: RuleSortKey,
    pub desc: bool,
}

impl View for RulesPrefs {
    type V = RulesPrefsV;

    open spec fn view(&self) -> RulesPrefsV {
        RulesPrefsV {
            search: self.search@,
            status: strings_view(self.status@),
            trigger: strings_view(self.trigger@),
            tags: strings_view(self.tags@),
            sort: self.sort,
            desc: self.desc,
        }
    }
}

pub open spec fn prefs_entries(p: RulesPrefsV) -> Seq<(Seq<char>, JsonV)> {
    seq![
        ("search"@, JsonV::Str(p.search)),
        ("status"@, str_array(p.status)),
        ("trigger"@, str_array(p.trigger)),
        ("tags"@, str_array(p.tags)),
        ("sort"@, JsonV::Str(rule_sort_text(p.sort))),
        ("sort_dir"@, JsonV::Str(if p.desc { "desc"@ } else { "asc"@ })),
    ]
}

/// The saved form of the preferences.
pub fn save_prefs(p: &RulesPrefs) -> (r: Json)
    ensures
        r@ == JsonV::Obj(prefs_entries(p@)),
{
    let mut entries: Vec<(String, Json)> = Vec::new();
    entries.push((owned("search"), json_string(p.search.as_str())));
    entries.push((owned("status"), str_array_of(&p.status)));
    entries.push((owned("trigger"), str_array_of(&p.trigger)));
    entries.push((owned("tags"), str_array_of(&p.tags)));
    entries.push((owned("sort"), json_string(sort_key_to_str(p.sort))));
    entries.push((owned("sort_dir"), json_string(if p.desc { "desc" } else { "asc" })));
    assert(entries_view(entries@) =~= prefs_entries(p@));
    make_object(entries)
}

/// The preferences a saved value holds: missing parts read as empty, name
/// order, ascending.
pub open spec fn prefs_from(v: JsonV) -> RulesPrefsV {
    RulesPrefsV {
        search: str_at_or(v, "search"@, ""@),
        status: string_list_at(v, "status"@),
        trigger: string_list_at(v, "trigger"@),
        tags: string_list_at(v, "tags"@),
        sort: if v.at("sort"@).as_str() == Some("priority"@) {
            RuleSortKey::Priority
        } else {
            RuleSortKey::Name
        },
        desc: v.at("sort_dir"@).as_str() == Some("desc"@),
    }
}

pub fn load_prefs(v: &Json) -> (r: RulesPrefs)
    ensures
        r@ == prefs_from(v@),
{
    let sort_text = crate::json::str_field(v, "sort");
    let sort = match &sort_text {
        Some(t) => sort_key_from_str(Some(t.as_str())),
        None => sort_key_from_str(None),
    };
    let dir = crate::json::str_field(v, "sort_dir");
    let desc = match &dir {
        Some(d) => str_eq(d.as_str(), "desc"),
        None => false,
    };
    RulesPrefs {
        search: crate::json::str_field_or(v, "search", ""),
        status: str_list_at(v, "status"),
        trigger: str_list_at(v, "trigger"),
        tags: str_list_at(v, "tags"),
        sort,
        desc,
    }
}

/// Saved preferences load back as they were saved.
pub proof fn law_prefs_roundtrip(p: RulesPrefsV)
    ensures
        prefs_from(JsonV::Obj(prefs_entries(p))) == p,
{
    let es = prefs_entries(p);
    reveal_strlit("search");
    reveal_strlit("status");
    reveal_strlit("trigger");
    reveal_strlit("tags");
    reveal_strlit("sort");
    reveal_strlit("sort_dir");
    reveal_strlit("priority");
    reveal_strlit("name");
    reveal_strlit("desc");
    reveal_strlit("asc");
    assert("search"@.len() == 6 && "status"@.len() == 6 && "trigger"@.len() == 7 && "tags"@.len() == 4);
    assert("sort"@.len() == 4 && "sort_dir"@.len() == 8 && "priority"@.len() == 8 && "name"@.len() == 4);
    assert("desc"@.len() == 4 && "asc"@.len() == 3);
    assert("search"@[1] != "status"@[1]);
    assert("tags"@[0] != "sort"@[0]);
    assert("priority"@[0] != "name"@[0]);
    crate::criteria::lemma_get_at(es, "search"@, 0);
    crate::criteria::lemma_get_at(es, "status"@, 1);
    crate::criteria::lemma_get_at(es, "trigger"@, 2);
    crate::criteria::lemma_get_at(es, "tags"@, 3);
    crate::criteria::lemma_get_at(es, "sort"@, 4);
    crate::criteria::lemma_get_at(es, "sort_dir"@, 5);
    lemma_string_items_roundtrip(p.status);
    lemma_string_items_roundtrip(p.trigger);
    lemma_string_items_roundtrip(p.tags);
    assert(p.sort == RuleSortKey::Name ==> rule_sort_text(p.sort) != "priority"@);
}

/// The preferences to start with, from the stored text: what its JSON
/// holds, read as from `null` where nothing is stored or the text is not
/// JSON.
pub fn load_prefs_text(saved: Option<&str>) -> (r: RulesPrefs)
    ensures
        r@ == prefs_from(
            match saved {
                Some(t) => match crate::json::json_text_value(t@) {
                    Some(v) => v,
                    None => JsonV::Null,
                },
                None => JsonV::Null,
            },
        ),
{
    let v = match saved {
        Some(t) => match crate::json::parse_json(t) {
            Some(v) => v,
            None => Json::Null,
        },
        None => Json::Null,
    };
    load_prefs(&v)
}

} // verus!
