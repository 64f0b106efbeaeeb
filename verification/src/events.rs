//! The activity timeline: events and log lines turned into uniform entries,
//! the bounded newest-first buffer that holds them (with pause and resume),
//! and the filters over it.
use vstd::prelude::*;
use crate::text::{
    owned, str_eq, push_str, push_chars, string_of, u64_decimal, nat_decimal, lowercase,
    unicode_lowercase, contains, contains_sub, chars_of, join, strings_view, join_strings,
};
use crate::json::{
    Json, JsonV, str_at, str_at_or, bool_at, u64_at, opt_view, json_get, str_field, str_field_or,
    bool_field, u64_field, deep_clone, jv, jv_items, lemma_jv_items,
};

verus! {

/// The most entries the timeline keeps.
pub const MAX_ENTRIES: usize = 500;

/// One row of the timeline.
pub struct ActivityEntry {
    pub id: String,
    pub timestamp: String,
    /// `event` or `log`.
    pub source: String,
    /// The event type, or the log target.
    pub kind: String,
    /// `info`, `warn`, `error`, `debug` or `trace`.
    pub severity: String,
    pub summary: String,
    pub device_id: Option<String>,
    pub rule_id: Option<String>,
    pub raw: Json,
}

pub struct EntryV {
    pub id: Seq<char>,
    pub timestamp: Seq<char>,
    pub source: Seq<char>,
    pub kind: Seq<char>,
    pub severity: Seq<char>,
    pub summary: Seq<char>,
    pub device_id: Option<Seq<char>>,
    pub rule_id: Option<Seq<char>>,
    pub raw: JsonV,
}

impl View for ActivityEntry {
    type V = EntryV;

    open spec fn view(&self) -> EntryV {
        EntryV {
            id: self.id@,
            timestamp: self.timestamp@,
            source: self.source@,
            kind: self.kind@,
            severity: self.severity@,
            summary: self.summary@,
            device_id: opt_view(self.device_id),
            rule_id: opt_view(self.rule_id),
            raw: self.raw@,
        }
    }
}

pub open spec fn entries_view(v: Seq<ActivityEntry>) -> Seq<EntryV> {
    Seq::new(v.len(), |i: int| v[i]@)
}

// ── Normalising ──────────────────────────────────────────────────────────────
/// The string items of an array, in order.
pub open spec fn strs_of(items: Seq<JsonV>) -> Seq<Seq<char>>
    decreases items.len(),
{
    if items.len() == 0 {
        Seq::empty()
    } else {
        let prev = strs_of(items.drop_last());
        match items.last().as_str() {
            Some(s) => prev.push(s),
            None => prev,
        }
    }
}

pub open spec fn on_off(b: bool) -> Seq<char> {
    if b {
        "on"@
    } else {
        "off"@
    }
}

/// The one-line summary of an event.
pub open spec fn event_summary(ev: JsonV) -> Seq<char> {
    let t = str_at_or(ev, "type"@, "unknown"@);
    let did = str_at_or(ev, "device_id"@, ""@);
    let dn = str_at_or(ev, "device_name"@, did);
    let name = str_at_or(ev, "rule_name"@, ""@);
    if t == "device_state_changed"@ {
        let changed = match ev.at("changed"@).as_array() {
            Some(items) => join(strs_of(items), ", "@),
            None => ""@,
        };
        dn + ": "@ + changed
    } else if t == "device_availability_changed"@ {
        dn + " → "@ + (if bool_at(ev, "available"@) == Some(true) {
            "online"@
        } else {
            "offline"@
        })
    } else if t == "rule_fired"@ {
        "Rule fired: "@ + name + match u64_at(ev, "elapsed_ms"@) {
            Some(n) => " ("@ + nat_decimal(n) + "ms)"@,
            None => ""@,
        }
    } else if t == "rule_evaluation_failed"@ {
        "Rule skipped: "@ + name + " — "@ + str_at_or(ev, "reason"@, ""@)
    } else if t == "action_failed"@ {
        "Action failed: "@ + name + "/"@ + str_at_or(ev, "action_type"@, ""@) + " — "@ + str_at_or(ev, "error"@, ""@)
    } else if t == "scene_activated"@ {
        "Scene: "@ + str_at_or(ev, "scene_name"@, ""@)
    } else if t == "mode_changed"@ {
        "Mode: "@ + str_at_or(ev, "mode_name"@, str_at_or(ev, "mode_id"@, ""@)) + " → "@ + on_off(bool_at(ev, "on"@) == Some(true))
    } else if t == "device_command_sent"@ {
        "Command → "@ + dn
    } else if t == "timer_state_changed"@ {
        "Timer "@ + str_at_or(ev, "timer_name"@, str_at_or(ev, "timer_id"@, ""@)) + ": "@ + str_at_or(ev, "state"@, ""@)
    } else if t == "plugin_registered"@ {
        "Plugin registered: "@ + str_at_or(ev, "plugin_id"@, ""@)
    } else if t == "plugin_offline"@ {
        "Plugin offline: "@ + str_at_or(ev, "plugin_id"@, ""@)
    } else if t == "plugin_heartbeat"@ {
        "Plugin heartbeat: "@ + str_at_or(ev, "plugin_id"@, ""@)
    } else if t == "custom"@ {
        "Custom: "@ + str_at_or(ev, "event_type"@, ""@)
    } else if t == "system_alert"@ {
        "Alert: "@ + str_at_or(ev, "message"@, ""@)
    } else {
        t
    }
}

/// The timeline entry for event number `seq`.
pub open spec fn event_entry(seq: nat, ev: JsonV) -> EntryV {
    let t = str_at_or(ev, "type"@, "unknown"@);
    EntryV {
        id: "e-"@ + nat_decimal(seq),
        timestamp: str_at_or(ev, "timestamp"@, ""@),
        source: "event"@,
        kind: t,
        severity: if t == "action_failed"@ || t == "system_alert"@ {
            "error"@
        } else {
            "info"@
        },
        summary: event_summary(ev),
        device_id: str_at(ev, "device_id"@),
        rule_id: str_at(ev, "rule_id"@),
        raw: ev,
    }
}

/// The timeline entry for log line number `counter`.
pub open spec fn log_entry(counter: nat, log: JsonV) -> EntryV {
    EntryV {
        id: "l-"@ + nat_decimal(counter),
        timestamp: str_at_or(log, "timestamp"@, ""@),
        source: "log"@,
        kind: str_at_or(log, "target"@, ""@),
        severity: unicode_lowercase(str_at_or(log, "level"@, "INFO"@)),
        summary: str_at_or(log, "message"@, ""@),
        device_id: log.at("fields"@).at("device_id"@).as_str(),
        rule_id: log.at("fields"@).at("rule_id"@).as_str(),
        raw: log,
    }
}

fn changed_list(ev: &Json) -> (r: String)
    ensures
        r@ == match ev@.at("changed"@).as_array() {
            Some(items) => join(strs_of(items), ", "@),
            None => ""@,
        },
{
    match json_get(ev, "changed") {
        Some(Json::Array(items)) => {
            proof {
                lemma_jv_items(*items, items.len() as nat);
            }
            let ghost iv = jv_items(*items, items.len() as nat);
            let mut parts: Vec<String> = Vec::new();
            let mut i: usize = 0;
            while i < items.len()
                invariant
                    i <= items.len(),
                    iv == jv_items(*items, items.len() as nat),
                    iv.len() == items.len(),
                    forall|k: int| 0 <= k < items.len() ==> #[trigger] iv[k] == jv(items[k]),
                    strings_view(parts@) == strs_of(iv.subrange(0, i as int)),
                decreases items.len() - i,
            {
                proof {
                    assert(iv.subrange(0, i + 1).drop_last() =~= iv.subrange(0, i as int));
                }
                match &items[i] {
                    Json::Str(s) => {
                        let ghost before = parts@;
                        parts.push(owned(s.as_str()));
                        assert(strings_view(parts@) =~= strings_view(before).push(s@));
                    },
                    _ => {},
                }
                i = i + 1;
            }
            assert(iv.subrange(0, items.len() as int) =~= iv);
            join_strings(&parts, ", ")
        },
        _ => owned(""),
    }
}

fn event_summary_text(ev: &Json) -> (r: String)
    ensures
        r@ == event_summary(ev@),
{
    let t = str_field_or(ev, "type", "unknown");
    let did = str_field_or(ev, "device_id", "");
    let dn = str_field_or(ev, "device_name", did.as_str());
    let name = str_field_or(ev, "rule_name", "");
    let mut out: Vec<char> = Vec::new();
    proof {
        reveal_strlit("");
        assert(""@ =~= Seq::<char>::empty());
    }
    if str_eq(t.as_str(), "device_state_changed") {
        let changed = changed_list(ev);
        push_str(&mut out, dn.as_str());
        push_str(&mut out, ": ");
        push_str(&mut out, changed.as_str());
        assert(out@ =~= dn@ + ": "@ + changed@);
    } else if str_eq(t.as_str(), "device_availability_changed") {
        push_str(&mut out, dn.as_str());
        push_str(&mut out, " → ");
        if bool_field(ev, "available") == Some(true) {
            push_str(&mut out, "online");
        } else {
            push_str(&mut out, "offline");
        }
        assert(out@ =~= dn@ + " → "@ + (if bool_at(ev@, "available"@) == Some(true) { "online"@ } else { "offline"@ }));
    } else if str_eq(t.as_str(), "rule_fired") {
        push_str(&mut out, "Rule fired: ");
        push_str(&mut out, name.as_str());
        match u64_field(ev, "elapsed_ms") {
            Some(n) => {
                push_str(&mut out, " (");
                let d = u64_decimal(n);
                push_chars(&mut out, &d);
                push_str(&mut out, "ms)");
            },
            None => {},
        }
        assert(out@ =~= "Rule fired: "@ + name@ + match u64_at(ev@, "elapsed_ms"@) {
            Some(n) => " ("@ + nat_decimal(n) + "ms)"@,
            None => ""@,
        });
    } else if str_eq(t.as_str(), "rule_evaluation_failed") {
        let reason = str_field_or(ev, "reason", "");
        push_str(&mut out, "Rule skipped: ");
        push_str(&mut out, name.as_str());
        push_str(&mut out, " — ");
        push_str(&mut out, reason.as_str());
        assert(out@ =~= "Rule skipped: "@ + name@ + " — "@ + reason@);
    } else if str_eq(t.as_str(), "action_failed") {
        let action = str_field_or(ev, "action_type", "");
        let err = str_field_or(ev, "error", "");
        push_str(&mut out, "Action failed: ");
        push_str(&mut out, name.as_str());
        push_str(&mut out, "/");
        push_str(&mut out, action.as_str());
        push_str(&mut out, " — ");
        push_str(&mut out, err.as_str());
        assert(out@ =~= "Action failed: "@ + name@ + "/"@ + action@ + " — "@ + err@);
    } else if str_eq(t.as_str(), "scene_activated") {
        let scene = str_field_or(ev, "scene_name", "");
        push_str(&mut out, "Scene: ");
        push_str(&mut out, scene.as_str());
        assert(out@ =~= "Scene: "@ + scene@);
    } else if str_eq(t.as_str(), "mode_changed") {
        let mode_id = str_field_or(ev, "mode_id", "");
        let mode = str_field_or(ev, "mode_name", mode_id.as_str());
        push_str(&mut out, "Mode: ");
        push_str(&mut out, mode.as_str());
        push_str(&mut out, " → ");
        if bool_field(ev, "on") == Some(true) {
            push_str(&mut out, "on");
        } else {
            push_str(&mut out, "off");
        }
        assert(out@ =~= "Mode: "@ + mode@ + " → "@ + on_off(bool_at(ev@, "on"@) == Some(true)));
    } else if str_eq(t.as_str(), "device_command_sent") {
        push_str(&mut out, "Command → ");
        push_str(&mut out, dn.as_str());
        assert(out@ =~= "Command → "@ + dn@);
    } else if str_eq(t.as_str(), "timer_state_changed") {
        let tid = str_field_or(ev, "timer_id", "");
        let tname = str_field_or(ev, "timer_name", tid.as_str());
        let state = str_field_or(ev, "state", "");
        push_str(&mut out, "Timer ");
        push_str(&mut out, tname.as_str());
        push_str(&mut out, ": ");
        push_str(&mut out, state.as_str());
        assert(out@ =~= "Timer "@ + tname@ + ": "@ + state@);
    } else if str_eq(t.as_str(), "plugin_registered") {
        let p = str_field_or(ev, "plugin_id", "");
        push_str(&mut out, "Plugin registered: ");
        push_str(&mut out, p.as_str());
        assert(out@ =~= "Plugin registered: "@ + p@);
    } else if str_eq(t.as_str(), "plugin_offline") {
        let p = str_field_or(ev, "plugin_id", "");
        push_str(&mut out, "Plugin offline: ");
        push_str(&mut out, p.as_str());
        assert(out@ =~= "Plugin offline: "@ + p@);
    } else if str_eq(t.as_str(), "plugin_heartbeat") {
        let p = str_field_or(ev, "plugin_id", "");
        push_str(&mut out, "Plugin heartbeat: ");
        push_str(&mut out, p.as_str());
        assert(out@ =~= "Plugin heartbeat: "@ + p@);
    } else if str_eq(t.as_str(), "custom") {
        let e = str_field_or(ev, "event_type", "");
        push_str(&mut out, "Custom: ");
        push_str(&mut out, e.as_str());
        assert(out@ =~= "Custom: "@ + e@);
    } else if str_eq(t.as_str(), "system_alert") {
        let m = str_field_or(ev, "message", "");
        push_str(&mut out, "Alert: ");
        push_str(&mut out, m.as_str());
        assert(out@ =~= "Alert: "@ + m@);
    } else {
        push_str(&mut out, t.as_str());
        assert(out@ =~= t@);
    }
    string_of(&out)
}

/// `prefix` followed by the decimal digits of `n`.
fn numbered_id(prefix: &str, n: u64) -> (r: String)
    ensures
        r@ == prefix@ + nat_decimal(n as nat),
{
    let mut out: Vec<char> = Vec::new();
    push_str(&mut out, prefix);
    let d = u64_decimal(n);
    push_chars(&mut out, &d);
    string_of(&out)
}

/// The timeline entry for event number `seq`.
pub fn normalize_event(seq: u64, ev: &Json) -> (r: ActivityEntry)
    ensures
        r@ == event_entry(seq as nat, ev@),
{
    let t = str_field_or(ev, "type", "unknown");
    let severity = if str_eq(t.as_str(), "action_failed") || str_eq(t.as_str(), "system_alert") {
        owned("error")
    } else {
        owned("info")
    };
    ActivityEntry {
        id: numbered_id("e-", seq),
        timestamp: str_field_or(ev, "timestamp", ""),
        source: owned("event"),
        kind: t,
        severity,
        summary: event_summary_text(ev),
        device_id: str_field(ev, "device_id"),
        rule_id: str_field(ev, "rule_id"),
        raw: deep_clone(ev),
    }
}

/// The timeline entry for log line number `counter`.
pub fn normalize_log(counter: u64, log: &Json) -> (r: ActivityEntry)
    ensures
        r@ == log_entry(counter as nat, log@),
{
    let level = str_field_or(log, "level", "INFO");
    let (device_id, rule_id) = match json_get(log, "fields") {
        Some(fields) => (str_field(fields, "device_id"), str_field(fields, "rule_id")),
        None => (None, None),
    };
    ActivityEntry {
        id: numbered_id("l-", counter),
        timestamp: str_field_or(log, "timestamp", ""),
        source: owned("log"),
        kind: str_field_or(log, "target", ""),
        severity: lowercase(level.as_str()),
        summary: str_field_or(log, "message", ""),
        device_id,
        rule_id,
        raw: deep_clone(log),
    }
}

/// The row class for a severity.
pub open spec fn severity_class_of(sev: Seq<char>) -> Seq<char> {
    if sev == "error"@ {
        "activity-sev--error"@
    } else if sev == "warn"@ {
        "activity-sev--warn"@
    } else if sev == "debug"@ || sev == "trace"@ {
        "activity-sev--debug"@
    } else {
        "activity-sev--info"@
    }
}

pub fn severity_class(sev: &str) -> (r: &'static str)
    ensures
        r@ == severity_class_of(sev@),
{
    if str_eq(sev, "error") {
        "activity-sev--error"
    } else if str_eq(sev, "warn") {
        "activity-sev--warn"
    } else if str_eq(sev, "debug") || str_eq(sev, "trace") {
        "activity-sev--debug"
    } else {
        "activity-sev--info"
    }
}

/// The badge class for a source.
pub open spec fn source_class_of(src: Seq<char>) -> Seq<char> {
    if src == "event"@ {
        "activity-src--event"@
    } else if src == "log"@ {
        "activity-src--log"@
    } else {
        ""@
    }
}

pub fn source_class(src: &str) -> (r: &'static str)
    ensures
        r@ == source_class_of(src@),
{
    if str_eq(src, "event") {
        "activity-src--event"
    } else if str_eq(src, "log") {
        "activity-src--log"
    } else {
        ""
    }
}

impl ActivityEntry {
    /// A copy of the entry.
    pub fn duplicate(&self) -> (r: Self)
        ensures
            r@ == self@,
    {
        ActivityEntry {
            id: owned(self.id.as_str()),
            timestamp: owned(self.timestamp.as_str()),
            source: owned(self.source.as_str()),
            kind: owned(self.kind.as_str()),
            severity: owned(self.severity.as_str()),
            summary: owned(self.summary.as_str()),
            device_id: match &self.device_id {
                Some(d) => Some(owned(d.as_str())),
                None => None,
            },
            rule_id: match &self.rule_id {
                Some(d) => Some(owned(d.as_str())),
                None => None,
            },
            raw: deep_clone(&self.raw),
        }
    }
}

// ── The buffer ───────────────────────────────────────────────────────────────
/// The timeline's entries, newest first, and the entries that arrived while
/// it was paused, oldest first.
pub struct ActivityLog {
    pub entries: Vec<ActivityEntry>,
    pub paused: bool,
    pub pause_buffer: Vec<ActivityEntry>,
}

pub struct LogV {
    pub entries: Seq<EntryV>,
    pub paused: bool,
    pub buffer: Seq<EntryV>,
}

impl View for ActivityLog {
    type V = LogV;

    open spec fn view(&self) -> LogV {
        LogV {
            entries: entries_view(self.entries@),
            paused: self.paused,
            buffer: entries_view(self.pause_buffer@),
        }
    }
}

/// Neither list holds more than `MAX_ENTRIES` entries.
pub open spec fn log_wf(l: LogV) -> bool {
    l.entries.len() <= MAX_ENTRIES && l.buffer.len() <= MAX_ENTRIES
}

/// `s` cut to its first `MAX_ENTRIES` entries.
pub open spec fn capped(s: Seq<EntryV>) -> Seq<EntryV> {
    if s.len() > MAX_ENTRIES {
        s.take(MAX_ENTRIES as int)
    } else {
        s
    }
}

/// The log after one entry arrives: while paused it joins the back of the
/// buffer, which drops its oldest entry when it overflows; otherwise it goes
/// to the front of the timeline, which drops its oldest entry when it overflows.
pub open spec fn after_add(l: LogV, e: EntryV) -> LogV {
    if l.paused {
        let b = l.buffer.push(e);
        LogV { buffer: if b.len() > MAX_ENTRIES { b.drop_first() } else { b }, ..l }
    } else {
        let s = seq![e] + l.entries;
        LogV { entries: if s.len() > MAX_ENTRIES { s.drop_last() } else { s }, ..l }
    }
}

/// The log after resuming: the buffered entries go to the front, newest
/// first, the timeline is cut to `MAX_ENTRIES`, and the buffer empties.
pub open spec fn after_resume(l: LogV) -> LogV {
    if l.buffer.len() == 0 {
        LogV { paused: false, ..l }
    } else {
        LogV { paused: false, entries: capped(l.buffer.reverse() + l.entries), buffer: Seq::empty() }
    }
}

/// The log after the initial history loads: it goes after what is there.
pub open spec fn after_history(l: LogV, es: Seq<EntryV>) -> LogV {
    LogV { entries: capped(l.entries + es), ..l }
}

/// The log after entries arrive one after another.
pub open spec fn after_adds(l: LogV, es: Seq<EntryV>) -> LogV
    decreases es.len(),
{
    if es.len() == 0 {
        l
    } else {
        after_add(after_adds(l, es.drop_last()), es.last())
    }
}

impl ActivityLog {
    pub fn new() -> (r: Self)
        ensures
            r@.entries.len() == 0,
            r@.buffer.len() == 0,
            !r@.paused,
            log_wf(r@),
    {
        ActivityLog { entries: Vec::new(), paused: false, pause_buffer: Vec::new() }
    }

    /// An entry arrives (see `after_add`).
    pub fn add_entry(&mut self, entry: ActivityEntry)
        ensures
            final(self)@ == after_add(old(self)@, entry@),
            log_wf(old(self)@) ==> log_wf(final(self)@),
    {
        let ghost e = entry@;
        if self.paused {
            let ghost before = self.pause_buffer@;
            self.pause_buffer.push(entry);
            assert(entries_view(self.pause_buffer@) =~= entries_view(before).push(e));
            if self.pause_buffer.len() > MAX_ENTRIES {
                let ghost b2 = self.pause_buffer@;
                self.pause_buffer.remove(0);
                assert(entries_view(self.pause_buffer@) =~= entries_view(b2).drop_first());
            }
        } else {
            let ghost before = self.entries@;
            self.entries.insert(0, entry);
            assert(entries_view(self.entries@) =~= seq![e] + entries_view(before));
            if self.entries.len() > MAX_ENTRIES {
                let ghost b2 = self.entries@;
                self.entries.pop();
                assert(entries_view(self.entries@) =~= entries_view(b2).drop_last());
            }
        }
    }

    /// The pause button.
    pub fn pause(&mut self)
        ensures
            final(self)@ == (LogV { paused: true, ..old(self)@ }),
    {
        self.paused = true;
    }

    /// The resume button (see `after_resume`).
    #[verifier::rlimit(50)]
    #[verifier::spinoff_prover]
    pub fn resume(&mut self)
        ensures
            final(self)@ == after_resume(old(self)@),
            log_wf(old(self)@) ==> log_wf(final(self)@),
    {
        self.paused = false;
        if self.pause_buffer.len() > 0 {
            let ghost buf = entries_view(self.pause_buffer@);
            let ghost start = entries_view(self.entries@);
            let mut i: usize = 0;
            while i < self.pause_buffer.len()
                invariant
                    i <= self.pause_buffer.len(),
                    buf == entries_view(self.pause_buffer@),
                    entries_view(self.entries@) == buf.take(i as int).reverse() + start,
                    !self.paused,
                decreases self.pause_buffer.len() - i,
            {
                let e = self.pause_buffer[i].duplicate();
                let ghost before = self.entries@;
                self.entries.insert(0, e);
                assert(buf.take(i + 1).reverse() =~= seq![buf[i as int]] + buf.take(i as int).reverse());
                assert(entries_view(self.entries@) =~= seq![e@] + entries_view(before));
                i = i + 1;
            }
            assert(buf.take(buf.len() as int) =~= buf);
            self.entries.truncate(MAX_ENTRIES);
            assert(entries_view(self.entries@) =~= capped(buf.reverse() + start));
            self.pause_buffer = Vec::new();
            assert(entries_view(self.pause_buffer@) =~= Seq::<EntryV>::empty());
        }
    }

    /// The clear button: the timeline empties; the buffer stays.
    pub fn clear(&mut self)
        ensures
            final(self)@ == (LogV { entries: Seq::empty(), ..old(self)@ }),
            log_wf(old(self)@) ==> log_wf(final(self)@),
    {
        self.entries = Vec::new();
        assert(entries_view(self.entries@) =~= Seq::<EntryV>::empty());
    }

    /// The initial history arrives (see `after_history`).
    pub fn load_history(&mut self, history: Vec<ActivityEntry>)
        ensures
            final(self)@ == after_history(old(self)@, entries_view(history@)),
            log_wf(old(self)@) ==> log_wf(final(self)@),
    {
        let ghost start = entries_view(self.entries@);
        let ghost hv = entries_view(history@);
        let mut history = history;
        self.entries.append(&mut history);
        assert(entries_view(self.entries@) =~= start + hv);
        self.entries.truncate(MAX_ENTRIES);
        assert(entries_view(self.entries@) =~= capped(start + hv));
    }
}

/// The number of an event in the stored history: its `seq`, or its
/// position in the answer.
pub open spec fn history_seq(item: JsonV, i: nat) -> nat {
    match u64_at(item, "seq"@) {
        Some(n) => n,
        None => i,
    }
}

/// The entries of the stored event history: each item's `event`, numbered
/// by `history_seq`.
pub open spec fn history_view(items: Seq<JsonV>) -> Seq<EntryV> {
    Seq::new(items.len(), |i: int| event_entry(history_seq(items[i], i as nat), items[i].at("event"@)))
}

/// The timeline entries of the stored event history.
pub fn history_entries(items: &Vec<Json>) -> (r: Vec<ActivityEntry>)
    ensures
        entries_view(r@) == history_view(crate::json::items_view(items@)),
{
    let ghost iv = crate::json::items_view(items@);
    let mut out: Vec<ActivityEntry> = Vec::new();
    let mut i: usize = 0;
    while i < items.len()
        invariant
            i <= items.len(),
            iv == crate::json::items_view(items@),
            entries_view(out@) == history_view(iv).take(i as int),
        decreases items.len() - i,
    {
        let seq = match u64_field(&items[i], "seq") {
            Some(n) => n,
            None => i as u64,
        };
        let e = match json_get(&items[i], "event") {
            Some(ev) => normalize_event(seq, ev),
            None => normalize_event(seq, &Json::Null),
        };
        proof {
            assert(iv[i as int] == items@[i as int]@);
            assert(seq as nat == history_seq(iv[i as int], i as nat));
            assert(e@ == history_view(iv)[i as int]);
        }
        let ghost before = out@;
        let ghost ev = e@;
        out.push(e);
        assert(entries_view(out@) =~= entries_view(before).push(ev));
        assert(entries_view(out@) =~= history_view(iv).take(i + 1));
        i = i + 1;
    }
    assert(history_view(iv).take(items.len() as int) =~= history_view(iv));
    out
}

/// The timeline and the last event number followed, after an event from
/// the shared stream arrives: it joins the timeline (see `after_add`) the
/// first time its number is past the last one followed, and is ignored
/// otherwise.
pub open spec fn after_follow(l: LogV, last: nat, seq: nat, raw: JsonV) -> (LogV, nat) {
    if seq <= last {
        (l, last)
    } else {
        (after_add(l, event_entry(seq, raw)), seq)
    }
}

/// An event from the shared stream arrives (see `after_follow`).
pub fn follow_live_event(log: &mut ActivityLog, last_seq: &mut u64, seq: u64, raw: &Json)
    ensures
        (final(log)@, *final(last_seq) as nat) == after_follow(old(log)@, *old(last_seq) as nat, seq as nat, raw@),
        log_wf(old(log)@) ==> log_wf(final(log)@),
{
    if seq <= *last_seq {
        return;
    }
    *last_seq = seq;
    log.add_entry(normalize_event(seq, raw));
}

/// An event that the stream delivers again is not added twice.
pub proof fn law_follow_once(l: LogV, last: nat, seq: nat, raw: JsonV)
    ensures
        ({
            let once = after_follow(l, last, seq, raw);
            after_follow(once.0, once.1, seq, raw) == once
        }),
{
}

// ── Filters ──────────────────────────────────────────────────────────────────
/// What the filter bar holds. An empty list of sources, severities or types
/// lets every entry through.
pub struct ActivityFilter {
    pub search: String,
    pub sources: Vec<String>,
    pub severities: Vec<String>,
    pub types: Vec<String>,
    pub ascending: bool,
}

pub open spec fn allows(set: Seq<String>, x: Seq<char>) -> bool {
    set.len() == 0 || strings_view(set).contains(x)
}

/// Whether an entry passes the filter: the lower-cased search text occurs in
/// its lower-cased summary or kind, and each non-empty selection holds it.
pub open spec fn entry_matches(e: EntryV, f: ActivityFilter) -> bool {
    let q = unicode_lowercase(f.search@);
    &&& (q.len() == 0 || contains_sub(unicode_lowercase(e.summary), q) || contains_sub(
        unicode_lowercase(e.kind),
        q,
    ))
    &&& allows(f.sources@, e.source)
    &&& allows(f.severities@, e.severity)
    &&& allows(f.types@, e.kind)
}

/// The entries that pass, newest first, or oldest first when ascending.
pub open spec fn filtered_view(es: Seq<EntryV>, f: ActivityFilter) -> Seq<EntryV> {
    let kept = es.filter(|e: EntryV| entry_matches(e, f));
    if f.ascending {
        kept.reverse()
    } else {
        kept
    }
}

fn set_allows(set: &Vec<String>, x: &str) -> (r: bool)
    ensures
        r == allows(set@, x@),
{
    if set.len() == 0 {
        return true;
    }
    let mut i: usize = 0;
    while i < set.len()
        invariant
            i <= set.len(),
            forall|k: int| 0 <= k < i ==> set@[k]@ != x@,
        decreases set.len() - i,
    {
        if str_eq(set[i].as_str(), x) {
            assert(strings_view(set@)[i as int] == x@);
            return true;
        }
        i = i + 1;
    }
    assert(!strings_view(set@).contains(x@)) by {
        if strings_view(set@).contains(x@) {
            let k = choose|k: int| 0 <= k < strings_view(set@).len() && strings_view(set@)[k] == x@;
            assert(set@[k]@ == x@);
        }
    }
    false
}

fn matches_filter(e: &ActivityEntry, f: &ActivityFilter, q: &Vec<char>) -> (r: bool)
    requires
        q@ == unicode_lowercase(f.search@),
    ensures
        r == entry_matches(e@, *f),
{
    if q.len() > 0 {
        let summary = chars_of(lowercase(e.summary.as_str()).as_str());
        let kind = chars_of(lowercase(e.kind.as_str()).as_str());
        if !contains(&summary, q) && !contains(&kind, q) {
            return false;
        }
    }
    set_allows(&f.sources, e.source.as_str()) && set_allows(&f.severities, e.severity.as_str())
        && set_allows(&f.types, e.kind.as_str())
}

/// The entries the timeline shows for a filter (see `filtered_view`).
pub fn filtered_entries(entries: &Vec<ActivityEntry>, filter: &ActivityFilter) -> (r: Vec<ActivityEntry>)
    ensures
        entries_view(r@) == filtered_view(entries_view(entries@), *filter),
{
    let q = chars_of(lowercase(filter.search.as_str()).as_str());
    let ghost ev = entries_view(entries@);
    let ghost pred = |e: EntryV| entry_matches(e, *filter);
    let mut kept: Vec<ActivityEntry> = Vec::new();
    let mut i: usize = 0;
    while i < entries.len()
        invariant
            i <= entries.len(),
            ev == entries_view(entries@),
            q@ == unicode_lowercase(filter.search@),
            pred == (|e: EntryV| entry_matches(e, *filter)),
            entries_view(kept@) == ev.take(i as int).filter(pred),
        decreases entries.len() - i,
    {
        proof {
            assert(ev.take(i + 1).drop_last() =~= ev.take(i as int));
            reveal_with_fuel(Seq::filter, 1);
        }
        if matches_filter(&entries[i], filter, &q) {
            let ghost before = kept@;
            kept.push(entries[i].duplicate());
            assert(entries_view(kept@) =~= entries_view(before).push(ev[i as int]));
        }
        i = i + 1;
    }
    assert(ev.take(entries.len() as int) =~= ev);
    if filter.ascending {
        let ghost k = entries_view(kept@);
        let mut rev: Vec<ActivityEntry> = Vec::new();
        let mut j: usize = kept.len();
        while j > 0
            invariant
                j <= kept.len(),
                k == entries_view(kept@),
                entries_view(rev@) == k.subrange(j as int, k.len() as int).reverse(),
            decreases j,
        {
            let ghost before = rev@;
            rev.push(kept[j - 1].duplicate());
            assert(k.subrange(j - 1, k.len() as int).reverse() =~= k.subrange(j as int, k.len() as int).reverse().push(k[j - 1]));
            assert(entries_view(rev@) =~= entries_view(before).push(k[j - 1]));
            j = j - 1;
        }
        assert(k.subrange(0, k.len() as int) =~= k);
        rev
    } else {
        kept
    }
}

/// The heading's count line.
pub open spec fn count_line(shown: nat, total: nat, status: Seq<char>) -> Seq<char> {
    let label = if status == "live"@ {
        "Live"@
    } else if status == "disconnected"@ {
        "Disconnected"@
    } else {
        "Connecting"@
    };
    if shown == total {
        nat_decimal(total) + " entries · "@ + label
    } else {
        nat_decimal(shown) + " / "@ + nat_decimal(total) + " entries · "@ + label
    }
}

pub fn entry_count_line(shown: usize, total: usize, status: &str) -> (r: String)
    ensures
        r@ == count_line(shown as nat, total as nat, status@),
{
    let label = if str_eq(status, "live") {
        "Live"
    } else if str_eq(status, "disconnected") {
        "Disconnected"
    } else {
        "Connecting"
    };
    let mut out: Vec<char> = Vec::new();
    if shown != total {
        let d = u64_decimal(shown as u64);
        push_chars(&mut out, &d);
        push_str(&mut out, " / ");
    }
    let t = u64_decimal(total as u64);
    push_chars(&mut out, &t);
    push_str(&mut out, " entries · ");
    push_str(&mut out, label);
    string_of(&out)
}

// ── Laws of the buffer ───────────────────────────────────────────────────────
/// The last `MAX_ENTRIES` entries of `es`.
pub open spec fn last_entries(es: Seq<EntryV>) -> Seq<EntryV> {
    if es.len() > MAX_ENTRIES {
        es.skip(es.len() - MAX_ENTRIES)
    } else {
        es
    }
}

proof fn lemma_cap_front(e: EntryV, x: Seq<EntryV>)
    ensures
        capped(seq![e] + capped(x)) == capped(seq![e] + x),
{
    if x.len() > MAX_ENTRIES {
        assert((seq![e] + capped(x)).take(MAX_ENTRIES as int) =~= (seq![e] + x).take(MAX_ENTRIES as int));
    }
}

proof fn lemma_live_adds(l: LogV, es: Seq<EntryV>)
    requires
        log_wf(l),
        !l.paused,
    ensures
        after_adds(l, es).entries == capped(es.reverse() + l.entries),
        !after_adds(l, es).paused,
        after_adds(l, es).buffer == l.buffer,
    decreases es.len(),
{
    if es.len() == 0 {
        assert(es.reverse() + l.entries =~= l.entries);
    } else {
        let p = es.drop_last();
        let e = es.last();
        lemma_live_adds(l, p);
        let prev = after_adds(l, p);
        let x = p.reverse() + l.entries;
        assert(prev.entries == capped(x));
        assert(es.reverse() =~= seq![e] + p.reverse());
        assert(seq![e] + x =~= es.reverse() + l.entries);
        lemma_cap_front(e, x);
        let s = seq![e] + prev.entries;
        assert(s.len() <= MAX_ENTRIES + 1);
        if s.len() > MAX_ENTRIES {
            assert(s.drop_last() =~= capped(s));
        }
        assert(after_add(prev, e).entries == capped(s));
    }
}

proof fn lemma_paused_adds(l: LogV, es: Seq<EntryV>)
    requires
        l.paused,
        l.buffer.len() == 0,
    ensures
        after_adds(l, es) == (LogV { buffer: last_entries(es), ..l }),
    decreases es.len(),
{
    if es.len() == 0 {
        assert(last_entries(es) =~= l.buffer);
    } else {
        let p = es.drop_last();
        let e = es.last();
        lemma_paused_adds(l, p);
        let b = last_entries(p).push(e);
        if p.len() >= MAX_ENTRIES {
            assert(b.drop_first() =~= last_entries(es));
        } else {
            assert(b =~= last_entries(es));
        }
    }
}

/// While the timeline is paused, arriving entries are held back, not lost:
/// the timeline stays as it was and the buffer holds the last
/// `MAX_ENTRIES` arrivals in arrival order; on resume the timeline is what
/// it would have been had they arrived live, newest first and capped.
pub proof fn law_pause_resume(l: LogV, es: Seq<EntryV>)
    requires
        log_wf(l),
        !l.paused,
        l.buffer.len() == 0,
    ensures
        after_adds(LogV { paused: true, ..l }, es).entries == l.entries,
        after_adds(LogV { paused: true, ..l }, es).buffer == last_entries(es),
        after_resume(after_adds(LogV { paused: true, ..l }, es)).entries == capped(es.reverse() + l.entries),
        after_resume(after_adds(LogV { paused: true, ..l }, es)).entries == after_adds(l, es).entries,
        !after_resume(after_adds(LogV { paused: true, ..l }, es)).paused,
        after_resume(after_adds(LogV { paused: true, ..l }, es)).buffer.len() == 0,
{
    let pl = LogV { paused: true, ..l };
    lemma_paused_adds(pl, es);
    lemma_live_adds(l, es);
    let b = last_entries(es);
    if es.len() == 0 {
        assert(es.reverse() + l.entries =~= l.entries);
    } else if es.len() > MAX_ENTRIES {
        assert(b.reverse() =~= es.reverse().take(MAX_ENTRIES as int));
        assert(capped(b.reverse() + l.entries) =~= capped(es.reverse() + l.entries));
    } else {
        assert(b =~= es);
    }
}

/// An entry that arrives while the timeline runs shows first.
pub proof fn law_newest_first(l: LogV, e: EntryV)
    requires
        !l.paused,
    ensures
        after_add(l, e).entries.len() > 0,
        after_add(l, e).entries[0] == e,
{
    let s = seq![e] + l.entries;
    assert(s[0] == e);
}

/// A line from the log stream: its entry where the text is JSON, else none.
pub fn log_line_entry(counter: u64, text: &str) -> (r: Option<ActivityEntry>)
    ensures
        match r {
            Some(e) => crate::json::json_text_value(text@) is Some && e@ == log_entry(
                counter as nat,
                crate::json::json_text_value(text@)->0,
            ),
            None => crate::json::json_text_value(text@) is None,
        },
{
    match crate::json::parse_json(text) {
        Some(v) => Some(normalize_log(counter, &v)),
        None => None,
    }
}


/// An availability event reads as the device going online exactly when its
/// `available` field is `true`, and as going offline otherwise.
pub proof fn law_availability_summary(seq: nat, ev: JsonV)
    requires
        str_at(ev, "type"@) == Some("device_availability_changed"@),
    ensures
        ({
            let s = event_entry(seq, ev).summary;
            &&& s.len() >= 6
            &&& (s.subrange(s.len() - 6, s.len() as int) == "online"@) == (bool_at(ev, "available"@) == Some(true))
            &&& (bool_at(ev, "available"@) != Some(true) ==> s.len() >= 7 && s.subrange(s.len() - 7, s.len() as int)
                == "offline"@)
        }),
{
    reveal_strlit("device_availability_changed");
    reveal_strlit("device_state_changed");
    reveal_strlit("online");
    reveal_strlit("offline");
    reveal_strlit(" → ");
    assert("device_availability_changed"@.len() != "device_state_changed"@.len());
    let did = str_at_or(ev, "device_id"@, ""@);
    let dn = str_at_or(ev, "device_name"@, did);
    let s = event_entry(seq, ev).summary;
    if bool_at(ev, "available"@) == Some(true) {
        assert(s == dn + " → "@ + "online"@);
        assert(s.subrange(s.len() - 6, s.len() as int) =~= "online"@);
    } else {
        assert(s == dn + " → "@ + "offline"@);
        assert(s.subrange(s.len() - 7, s.len() as int) =~= "offline"@);
        assert(s.subrange(s.len() - 6, s.len() as int) =~= "offline"@.subrange(1, 7));
        assert("offline"@.subrange(1, 7)[0] != "online"@[0]);
    }
}


/// Events and log lines never share an entry id: an event's id starts with
/// `e-` and a log line's with `l-`.
pub proof fn law_entry_ids_apart(seq: nat, ev: JsonV, counter: nat, log: JsonV)
    ensures
        event_entry(seq, ev).id.len() >= 2 && event_entry(seq, ev).id[0] == 'e' && event_entry(seq, ev).id[1] == '-',
        log_entry(counter, log).id.len() >= 2 && log_entry(counter, log).id[0] == 'l' && log_entry(counter, log).id[1]
            == '-',
        event_entry(seq, ev).id != log_entry(counter, log).id,
{
    reveal_strlit("e-");
    reveal_strlit("l-");
    let a = event_entry(seq, ev).id;
    let b = log_entry(counter, log).id;
    assert(a[0] == 'e');
    assert(b[0] == 'l');
}

/// An event entry is an error exactly for a failed action or a system
/// alert, and information otherwise; it comes from the event stream and
/// keeps the event's type.
pub proof fn law_event_severity(seq: nat, ev: JsonV)
    ensures
        (event_entry(seq, ev).severity == "error"@) == (str_at(ev, "type"@) == Some("action_failed"@) || str_at(
            ev,
            "type"@,
        ) == Some("system_alert"@)),
        event_entry(seq, ev).severity != "error"@ ==> event_entry(seq, ev).severity == "info"@,
        event_entry(seq, ev).source == "event"@,
{
    reveal_strlit("error");
    reveal_strlit("info");
    reveal_strlit("unknown");
    reveal_strlit("action_failed");
    reveal_strlit("system_alert");
    assert("error"@.len() != "info"@.len());
    assert("unknown"@.len() != "action_failed"@.len() && "unknown"@.len() != "system_alert"@.len());
}

} // verus!
