//! The drawer of a streaming plugin action: it starts the action, follows
//! the stage events the plugin streams back, and resets when it closes.
use vstd::prelude::*;
use crate::text::{
    str_eq, owned, concat2, concat3, string_of, push_str, u64_decimal, nat_decimal, is_ascii_alnum,
    ascii_lower, to_ascii_lower, chars_of,
};
use crate::json::{
    Json, JsonV, json_get, json_eq, deep_clone, str_at_or, make_object, json_string, entries_view,
    items_view, compact, compact_json, u64_at,
};
use crate::actions::{FormState, opt_jv};

verus! {

// ── Items ────────────────────────────────────────────────────────────────────
/// Whether `v` is the item that `kv` names: `kv` is a value and `v` holds
/// the same value under the key.
pub open spec fn same_item(kv: Option<JsonV>, v: JsonV, key: Seq<char>) -> bool {
    kv is Some && v.get(key) == kv
}

/// The first item that `kv` names.
pub open spec fn first_same(items: Seq<JsonV>, kv: Option<JsonV>, key: Seq<char>) -> Option<int>
    decreases items.len(),
{
    if items.len() == 0 {
        None
    } else {
        match first_same(items.drop_last(), kv, key) {
            Some(p) => Some(p),
            None => if same_item(kv, items.last(), key) {
                Some(items.len() - 1)
            } else {
                None
            },
        }
    }
}

/// `add` and `update`: the item replaces the first item with its key value,
/// or joins the end.
pub open spec fn upsert(items: Seq<JsonV>, data: JsonV, key: Seq<char>) -> Seq<JsonV> {
    match first_same(items, data.get(key), key) {
        Some(p) => items.update(p, data),
        None => items.push(data),
    }
}

/// `remove`: every item with the item's key value leaves.
pub open spec fn remove_same(items: Seq<JsonV>, data: JsonV, key: Seq<char>) -> Seq<JsonV> {
    items.filter(|v: JsonV| !same_item(data.get(key), v, key))
}

pub open spec fn items_after(items: Seq<JsonV>, op: Seq<char>, data: JsonV, key: Seq<char>) -> Seq<JsonV> {
    if op == "add"@ || op == "update"@ {
        upsert(items, data, key)
    } else if op == "remove"@ {
        remove_same(items, data, key)
    } else {
        items
    }
}

/// The stages that end a run.
pub open spec fn is_terminal(stage: Seq<char>) -> bool {
    stage == "complete"@ || stage == "error"@ || stage == "canceled"@ || stage == "timeout"@
}

pub fn terminal_stage(s: &str) -> (r: bool)
    ensures
        r == is_terminal(s@),
{
    str_eq(s, "complete") || str_eq(s, "error") || str_eq(s, "canceled") || str_eq(s, "timeout")
}

proof fn lemma_first_same_props(items: Seq<JsonV>, kv: Option<JsonV>, key: Seq<char>)
    ensures
        match first_same(items, kv, key) {
            Some(p) => 0 <= p < items.len() && same_item(kv, items[p], key) && forall|j: int|
                0 <= j < p ==> !same_item(kv, #[trigger] items[j], key),
            None => forall|j: int| 0 <= j < items.len() ==> !same_item(kv, #[trigger] items[j], key),
        },
    decreases items.len(),
{
    if items.len() > 0 {
        lemma_first_same_props(items.drop_last(), kv, key);
        match first_same(items.drop_last(), kv, key) {
            Some(p) => {
                assert forall|j: int| 0 <= j < p implies !same_item(kv, #[trigger] items[j], key) by {
                    assert(items[j] == items.drop_last()[j]);
                }
                assert(items[p] == items.drop_last()[p]);
            },
            None => {
                assert forall|j: int| 0 <= j < items.len() - 1 implies !same_item(kv, #[trigger] items[j], key) by {
                    assert(items[j] == items.drop_last()[j]);
                }
            },
        }
    }
}

/// `first_same` is the first index that the key value names.
proof fn lemma_first_same_is(items: Seq<JsonV>, kv: Option<JsonV>, key: Seq<char>, p: int)
    requires
        0 <= p < items.len(),
        same_item(kv, items[p], key),
        forall|j: int| 0 <= j < p ==> !same_item(kv, #[trigger] items[j], key),
    ensures
        first_same(items, kv, key) == Some(p),
{
    lemma_first_same_props(items, kv, key);
    match first_same(items, kv, key) {
        Some(q) => {
            if q < p {
                assert(!same_item(kv, items[q], key));
            } else if q > p {
                assert(!same_item(kv, items[p], key));
            }
        },
        None => {
            assert(!same_item(kv, items[p], key));
        },
    }
}

/// Adding an item twice leaves the list as adding it once, where the item
/// holds a value under the key.
pub proof fn law_upsert_idempotent(items: Seq<JsonV>, data: JsonV, key: Seq<char>)
    requires
        data.get(key) is Some,
    ensures
        upsert(upsert(items, data, key), data, key) == upsert(items, data, key),
{
    let kv = data.get(key);
    let once = upsert(items, data, key);
    lemma_first_same_props(items, kv, key);
    match first_same(items, kv, key) {
        Some(p) => {
            assert forall|j: int| 0 <= j < p implies !same_item(kv, #[trigger] once[j], key) by {
                assert(once[j] == items[j]);
            }
            lemma_first_same_is(once, kv, key, p);
            assert(once.update(p, data) =~= once);
        },
        None => {
            let p = items.len() as int;
            assert forall|j: int| 0 <= j < p implies !same_item(kv, #[trigger] once[j], key) by {
                assert(once[j] == items[j]);
            }
            lemma_first_same_is(once, kv, key, p);
            assert(once.update(p, data) =~= once);
        },
    }
}

/// After an item is removed, no item with its key value is left.
pub proof fn law_remove_leaves_none(items: Seq<JsonV>, data: JsonV, key: Seq<char>)
    ensures
        forall|j: int|
            0 <= j < remove_same(items, data, key).len() ==> !same_item(
                data.get(key),
                #[trigger] remove_same(items, data, key)[j],
                key,
            ),
{
    let pred = |v: JsonV| !same_item(data.get(key), v, key);
    items.filter_lemma(pred);
}

/// No two items hold the same value under the key (items without one
/// aside).
pub open spec fn keys_distinct(items: Seq<JsonV>, key: Seq<char>) -> bool {
    forall|i: int, j: int|
        0 <= i < j < items.len() && (#[trigger] items[i]).get(key) is Some ==> items[i].get(key) != (
        #[trigger] items[j]).get(key)
}

proof fn lemma_filter_keeps_distinct(items: Seq<JsonV>, key: Seq<char>, pred: spec_fn(JsonV) -> bool)
    requires
        keys_distinct(items, key),
    ensures
        keys_distinct(items.filter(pred), key),
    decreases items.len(),
{
    reveal_with_fuel(Seq::filter, 1);
    if items.len() > 0 {
        let p = items.drop_last();
        assert forall|i: int, j: int|
            0 <= i < j < p.len() && (#[trigger] p[i]).get(key) is Some implies p[i].get(key) != (
            #[trigger] p[j]).get(key) by {
            assert(p[i] == items[i] && p[j] == items[j]);
        }
        lemma_filter_keeps_distinct(p, key, pred);
        let fp = p.filter(pred);
        p.filter_lemma(pred);
        if pred(items.last()) {
            let f = fp.push(items.last());
            assert(items.filter(pred) == f);
            assert forall|i: int, j: int|
                0 <= i < j < f.len() && (#[trigger] f[i]).get(key) is Some implies f[i].get(key) != (
                #[trigger] f[j]).get(key) by {
                if j == fp.len() {
                    assert(fp.contains(fp[i]));
                    p.lemma_filter_contains_rev(pred, fp[i]);
                    let k = choose|k: int| 0 <= k < p.len() && p[k] == fp[i];
                    assert(items[k] == fp[i]);
                    assert(items[items.len() - 1] == f[j]);
                } else {
                    assert(f[i] == fp[i] && f[j] == fp[j]);
                }
            }
        }
    }
}

/// Items applied one event after another never come to share a key value:
/// where no two items share one, none do after the event.
pub proof fn law_items_keys_distinct(items: Seq<JsonV>, op: Seq<char>, data: JsonV, key: Seq<char>)
    requires
        keys_distinct(items, key),
    ensures
        keys_distinct(items_after(items, op, data, key), key),
{
    let kv = data.get(key);
    lemma_first_same_props(items, kv, key);
    if op == "add"@ || op == "update"@ {
        let u = upsert(items, data, key);
        match first_same(items, kv, key) {
            Some(p) => {
                assert forall|i: int| 0 <= i < u.len() implies (#[trigger] u[i]).get(key) == items[i].get(key) by {}
            },
            None => {
                assert forall|i: int, j: int|
                    0 <= i < j < u.len() && (#[trigger] u[i]).get(key) is Some implies u[i].get(key) != (
                    #[trigger] u[j]).get(key) by {
                    if j == items.len() {
                        assert(!same_item(kv, items[i], key));
                    } else {
                        assert(u[i] == items[i] && u[j] == items[j]);
                    }
                }
            },
        }
    } else if op == "remove"@ {
        lemma_filter_keeps_distinct(items, key, |v: JsonV| !same_item(kv, v, key));
    }
}

fn same_item_exec(kv: Option<&Json>, v: &Json, key: &str) -> (r: bool)
    ensures
        r == same_item(crate::actions::opt_ref_jv(kv), v@, key@),
{
    match kv {
        Some(k) => match json_get(v, key) {
            Some(e) => json_eq(k, e),
            None => false,
        },
        None => false,
    }
}

/// Applies an item event to the list.
pub fn apply_item(items: &mut Vec<Json>, op: &str, data: Json, key: &str)
    ensures
        items_view(final(items)@) == items_after(items_view(old(items)@), op@, data@, key@),
{
    let ghost iv = items_view(items@);
    let kv = match json_get(&data, key) {
        Some(k) => Some(deep_clone(k)),
        None => None,
    };
    let ghost kvv: Option<JsonV> = opt_jv(kv);
    assert(kvv == data@.get(key@));
    if str_eq(op, "add") || str_eq(op, "update") {
        let mut i: usize = 0;
        let mut pos: Option<usize> = None;
        while i < items.len()
            invariant
                i <= items.len(),
                iv == items_view(items@),
                kvv == opt_jv(kv),
                match pos {
                    Some(p) => p < i && first_same(iv.take(i as int), kvv, key@) == Some(p as int),
                    None => first_same(iv.take(i as int), kvv, key@) is None,
                },
            decreases items.len() - i,
        {
            proof {
                assert(iv.take(i + 1).drop_last() =~= iv.take(i as int));
                assert(iv.take(i + 1).last() == items@[i as int]@);
            }
            if pos.is_none() && same_item_exec(kv.as_ref(), &items[i], key) {
                pos = Some(i);
            }
            i = i + 1;
        }
        assert(iv.take(items.len() as int) =~= iv);
        match pos {
            Some(p) => {
                let ghost before = items@;
                items.set(p, data);
                assert(items_view(items@) =~= iv.update(p as int, data@));
            },
            None => {
                let ghost before = items@;
                items.push(data);
                assert(items_view(items@) =~= iv.push(data@));
            },
        }
    } else if str_eq(op, "remove") {
        let ghost pred = |v: JsonV| !same_item(kvv, v, key@);
        let mut kept: Vec<Json> = Vec::new();
        let mut i: usize = 0;
        while i < items.len()
            invariant
                i <= items.len(),
                iv == items_view(items@),
                kvv == opt_jv(kv),
                pred == (|v: JsonV| !same_item(kvv, v, key@)),
                items_view(kept@) == iv.take(i as int).filter(pred),
            decreases items.len() - i,
        {
            proof {
                assert(iv.take(i + 1).drop_last() =~= iv.take(i as int));
                reveal_with_fuel(Seq::filter, 1);
            }
            if !same_item_exec(kv.as_ref(), &items[i], key) {
                let ghost before = kept@;
                kept.push(deep_clone(&items[i]));
                assert(items_view(kept@) =~= items_view(before).push(iv[i as int]));
            }
            i = i + 1;
        }
        assert(iv.take(items.len() as int) =~= iv);
        *items = kept;
    }
}

// ── The drawer ───────────────────────────────────────────────────────────────
/// The state of a streaming action's drawer.
pub struct Drawer {
    /// The start request is on its way.
    pub starting: bool,
    /// A run was started (the parameter form is hidden).
    pub started: bool,
    pub request_id: Option<String>,
    pub items: Vec<Json>,
    pub last_progress: Option<Json>,
    pub warnings: Vec<Json>,
    pub pending_prompt: Option<Json>,
    pub terminal: Option<Json>,
    /// The answer being written to a prompt.
    pub respond_state: FormState,
    /// The event stream is open.
    pub stream_open: bool,
}

pub struct DrawerV {
    pub starting: bool,
    pub started: bool,
    pub request_id: Option<Seq<char>>,
    pub items: Seq<JsonV>,
    pub last_progress: Option<JsonV>,
    pub warnings: Seq<JsonV>,
    pub pending_prompt: Option<JsonV>,
    pub terminal: Option<JsonV>,
    pub respond_state: Seq<(Seq<char>, JsonV)>,
    pub stream_open: bool,
}

impl View for Drawer {
    type V = DrawerV;

    open spec fn view(&self) -> DrawerV {
        DrawerV {
            starting: self.starting,
            started: self.started,
            request_id: crate::json::opt_view(self.request_id),
            items: items_view(self.items@),
            last_progress: opt_jv(self.last_progress),
            warnings: items_view(self.warnings@),
            pending_prompt: opt_jv(self.pending_prompt),
            terminal: opt_jv(self.terminal),
            respond_state: self.respond_state@,
            stream_open: self.stream_open,
        }
    }
}

/// A closed drawer: nothing started, nothing received.
pub open spec fn drawer_initial() -> DrawerV {
    DrawerV {
        starting: false,
        started: false,
        request_id: None,
        items: Seq::empty(),
        last_progress: None,
        warnings: Seq::empty(),
        pending_prompt: None,
        terminal: None,
        respond_state: Seq::empty(),
        stream_open: false,
    }
}

/// What a stage event does: `progress` replaces the progress, `item` edits
/// the items (under `key`), `awaiting_user` shows a prompt with a blank
/// answer, `warning` adds a warning, and a terminal stage ends the run and
/// closes the stream. Other stages change nothing.
pub open spec fn after_event(d: DrawerV, ev: JsonV, key: Seq<char>) -> DrawerV {
    let stage = str_at_or(ev, "stage"@, ""@);
    if stage == "progress"@ {
        DrawerV { last_progress: Some(ev), ..d }
    } else if stage == "item"@ {
        let data = match ev.get("data"@) {
            Some(v) => v,
            None => JsonV::Null,
        };
        DrawerV { items: items_after(d.items, str_at_or(ev, "op"@, ""@), data, key), ..d }
    } else if stage == "awaiting_user"@ {
        DrawerV { respond_state: Seq::empty(), pending_prompt: Some(ev), ..d }
    } else if stage == "warning"@ {
        DrawerV { warnings: d.warnings.push(ev), ..d }
    } else if is_terminal(stage) {
        DrawerV { terminal: Some(ev), stream_open: false, ..d }
    } else {
        d
    }
}

/// The key that names items: the action's `item_key`, or `id`.
pub open spec fn item_key_of(item_key: Option<Seq<char>>) -> Seq<char> {
    match item_key {
        Some(k) => k,
        None => "id"@,
    }
}

/// How the start request ended.
pub enum StartOutcome {
    /// Another run holds the action; the id of that run.
    Busy(String),
    /// The run started; its request id.
    Started(String),
    NoRequestId,
    Failed(String),
}

pub enum StartOutcomeV {
    Busy(Seq<char>),
    Started(Seq<char>),
    NoRequestId,
    Failed(Seq<char>),
}

impl View for StartOutcome {
    type V = StartOutcomeV;

    open spec fn view(&self) -> StartOutcomeV {
        match self {
            StartOutcome::Busy(s) => StartOutcomeV::Busy(s@),
            StartOutcome::Started(s) => StartOutcomeV::Started(s@),
            StartOutcome::NoRequestId => StartOutcomeV::NoRequestId,
            StartOutcome::Failed(s) => StartOutcomeV::Failed(s@),
        }
    }
}

/// The answer to the start request: `busy` with the running request's id,
/// a request id, neither, or the request's error.
pub open spec fn start_outcome_of(resp: Result<JsonV, Seq<char>>) -> StartOutcomeV {
    match resp {
        Ok(r) => if r.at("status"@).as_str() == Some("busy"@) {
            StartOutcomeV::Busy(str_at_or(r, "active_request_id"@, ""@))
        } else {
            match r.at("request_id"@).as_str() {
                Some(rid) => StartOutcomeV::Started(rid),
                None => StartOutcomeV::NoRequestId,
            }
        },
        Err(e) => StartOutcomeV::Failed(e),
    }
}

pub open spec fn result_jv(r: Result<Json, String>) -> Result<JsonV, Seq<char>> {
    match r {
        Ok(j) => Ok(j@),
        Err(e) => Err(e@),
    }
}

pub fn start_outcome(resp: &Result<Json, String>) -> (r: StartOutcome)
    ensures
        r@ == start_outcome_of(result_jv(*resp)),
{
    match resp {
        Ok(r) => {
            let status = crate::json::str_field(r, "status");
            let busy = match &status {
                Some(s) => str_eq(s.as_str(), "busy"),
                None => false,
            };
            if busy {
                StartOutcome::Busy(crate::json::str_field_or(r, "active_request_id", ""))
            } else {
                match crate::json::str_field(r, "request_id") {
                    Some(rid) => StartOutcome::Started(rid),
                    None => StartOutcome::NoRequestId,
                }
            }
        },
        Err(e) => StartOutcome::Failed(owned(e.as_str())),
    }
}

/// The drawer after the start request ends, and the error it shows.
pub open spec fn after_start(d: DrawerV, o: StartOutcomeV) -> (DrawerV, Option<Seq<char>>) {
    match o {
        StartOutcomeV::Busy(active) => (
            DrawerV { started: false, starting: false, ..d },
            Some(
                "another invocation is already running (request_id "@ + active
                    + "); wait for it to finish or cancel it first"@,
            ),
        ),
        StartOutcomeV::Started(rid) => (DrawerV { request_id: Some(rid), starting: false, ..d }, None),
        StartOutcomeV::NoRequestId => (
            DrawerV { started: false, starting: false, ..d },
            Some("plugin did not return request_id"@),
        ),
        StartOutcomeV::Failed(e) => (
            DrawerV { started: false, starting: false, ..d },
            Some("start failed: "@ + e),
        ),
    }
}

impl Drawer {
    pub fn new() -> (r: Self)
        ensures
            r@ == drawer_initial(),
    {
        let r = Drawer {
            starting: false,
            started: false,
            request_id: None,
            items: Vec::new(),
            last_progress: None,
            warnings: Vec::new(),
            pending_prompt: None,
            terminal: None,
            respond_state: FormState::new(),
            stream_open: false,
        };
        assert(r@.items =~= Seq::<JsonV>::empty());
        assert(r@.warnings =~= Seq::<JsonV>::empty());
        r
    }

    /// Follows one stage event (see `after_event`).
    pub fn apply_event(&mut self, ev: Json, item_key: Option<&str>)
        ensures
            final(self)@ == after_event(
                old(self)@,
                ev@,
                item_key_of(
                    match item_key {
                        Some(k) => Some(k@),
                        None => None,
                    },
                ),
            ),
    {
        let stage = crate::json::str_field_or(&ev, "stage", "");
        let s = stage.as_str();
        if str_eq(s, "progress") {
            self.last_progress = Some(ev);
        } else if str_eq(s, "item") {
            let op = crate::json::str_field_or(&ev, "op", "");
            let data = match json_get(&ev, "data") {
                Some(d) => deep_clone(d),
                None => Json::Null,
            };
            let key = match item_key {
                Some(k) => k,
                None => "id",
            };
            apply_item(&mut self.items, op.as_str(), data, key);
        } else if str_eq(s, "awaiting_user") {
            self.respond_state = FormState::new();
            self.pending_prompt = Some(ev);
        } else if str_eq(s, "warning") {
            let ghost before = self.warnings@;
            self.warnings.push(ev);
            assert(items_view(self.warnings@) =~= items_view(before).push(ev@));
        } else if terminal_stage(s) {
            self.terminal = Some(ev);
            self.stream_open = false;
        }
    }

    /// A message from the event stream: a non-empty JSON text is followed
    /// as a stage event (see `after_event`); anything else changes nothing.
    pub fn apply_event_text(&mut self, raw: &str, item_key: Option<&str>)
        ensures
            (raw@.len() > 0 && crate::json::json_text_value(raw@) is Some) ==> final(self)@ == after_event(
                old(self)@,
                crate::json::json_text_value(raw@)->0,
                item_key_of(
                    match item_key {
                        Some(k) => Some(k@),
                        None => None,
                    },
                ),
            ),
            (raw@.len() == 0 || crate::json::json_text_value(raw@) is None) ==> final(self)@ == old(self)@,
    {
        if raw.unicode_len() == 0 {
            return;
        }
        match crate::json::parse_json(raw) {
            Some(v) => self.apply_event(v, item_key),
            None => {},
        }
    }

    /// Pressing Run: the start request leaves.
    pub fn begin_start(&mut self)
        ensures
            final(self)@ == (DrawerV { starting: true, started: true, ..old(self)@ }),
    {
        self.starting = true;
        self.started = true;
    }

    /// The start request ended (see `after_start`); returns the error to show.
    pub fn finish_start(&mut self, resp: &Result<Json, String>) -> (r: Option<String>)
        ensures
            (final(self)@, crate::json::opt_view(r)) == after_start(old(self)@, start_outcome_of(result_jv(*resp))),
    {
        match start_outcome(resp) {
            StartOutcome::Busy(active) => {
                self.started = false;
                self.starting = false;
                Some(concat3(
                    "another invocation is already running (request_id ",
                    active.as_str(),
                    "); wait for it to finish or cancel it first",
                ))
            },
            StartOutcome::Started(rid) => {
                self.request_id = Some(rid);
                self.starting = false;
                None
            },
            StartOutcome::NoRequestId => {
                self.started = false;
                self.starting = false;
                Some(owned("plugin did not return request_id"))
            },
            StartOutcome::Failed(e) => {
                self.started = false;
                self.starting = false;
                Some(concat2("start failed: ", e.as_str()))
            },
        }
    }

    /// The event stream opened.
    pub fn stream_opened(&mut self)
        ensures
            final(self)@ == (DrawerV { stream_open: true, ..old(self)@ }),
    {
        self.stream_open = true;
    }

    /// The event stream could not open; returns the error to show.
    pub fn stream_failed(&mut self, message: &str) -> (r: String)
        ensures
            final(self)@ == (DrawerV { started: false, ..old(self)@ }),
            r@ == "failed to open stream: "@ + message@,
    {
        self.started = false;
        concat2("failed to open stream: ", message)
    }

    /// The cancel request, while a run has a request id.
    pub fn cancel_body(&self) -> (r: Option<Json>)
        ensures
            match self@.request_id {
                Some(rid) => r is Some && opt_jv(r) == Some(JsonV::Obj(seq![("target_request_id"@, JsonV::Str(rid))])),
                None => r is None,
            },
    {
        match &self.request_id {
            Some(rid) => {
                let mut entries: Vec<(String, Json)> = Vec::new();
                entries.push((owned("target_request_id"), json_string(rid.as_str())));
                assert(entries_view(entries@) =~= seq![("target_request_id"@, JsonV::Str(rid@))]);
                Some(make_object(entries))
            },
            None => None,
        }
    }

    /// The answer to a prompt, while a run has a request id.
    pub fn respond_body(&self) -> (r: Option<Json>)
        ensures
            match self@.request_id {
                Some(rid) => r is Some && opt_jv(r) == Some(
                    JsonV::Obj(
                        seq![
                            ("target_request_id"@, JsonV::Str(rid)),
                            ("response"@, JsonV::Obj(self@.respond_state)),
                        ],
                    ),
                ),
                None => r is None,
            },
    {
        match &self.request_id {
            Some(rid) => {
                let mut entries: Vec<(String, Json)> = Vec::new();
                entries.push((owned("target_request_id"), json_string(rid.as_str())));
                entries.push((owned("response"), self.respond_state.to_body()));
                assert(entries_view(entries@) =~= seq![
                    ("target_request_id"@, JsonV::Str(rid@)),
                    ("response"@, JsonV::Obj(self@.respond_state)),
                ]);
                Some(make_object(entries))
            },
            None => None,
        }
    }

    /// The answer was accepted: the prompt goes away.
    pub fn responded(&mut self)
        ensures
            final(self)@ == (DrawerV { pending_prompt: None, ..old(self)@ }),
    {
        self.pending_prompt = None;
    }

    /// Closing the drawer drops the run and its stream.
    pub fn close(&mut self)
        ensures
            final(self)@ == drawer_initial(),
    {
        *self = Drawer::new();
    }
}

/// A terminal stage ends the run and closes the stream, whatever came before.
pub proof fn law_terminal_closes_stream(d: DrawerV, ev: JsonV, key: Seq<char>)
    requires
        is_terminal(str_at_or(ev, "stage"@, ""@)),
    ensures
        !after_event(d, ev, key).stream_open,
        after_event(d, ev, key).terminal == Some(ev),
        after_event(d, ev, key).items == d.items,
{
    reveal_strlit("progress");
    reveal_strlit("item");
    reveal_strlit("awaiting_user");
    reveal_strlit("warning");
    reveal_strlit("complete");
    reveal_strlit("error");
    reveal_strlit("canceled");
    reveal_strlit("timeout");
    assert("progress"@.len() == 8 && "item"@.len() == 4 && "awaiting_user"@.len() == 13 && "warning"@.len() == 7);
    assert("complete"@.len() == 8 && "error"@.len() == 5 && "canceled"@.len() == 8 && "timeout"@.len() == 7);
    assert("complete"@[0] != "progress"@[0]);
    assert("canceled"@[0] != "progress"@[0]);
    assert("timeout"@[0] != "warning"@[0]);
}

// ── What the drawer shows ────────────────────────────────────────────────────
/// A progress event's percentage, as a byte (`percent as u8`).
pub open spec fn percent_of(ev: JsonV) -> Option<u8> {
    match u64_at(ev, "percent"@) {
        Some(n) => Some((n % 256) as u8),
        None => None,
    }
}

pub fn progress_percent(ev: &Json) -> (r: Option<u8>)
    ensures
        r == percent_of(ev@),
{
    match crate::json::u64_field(ev, "percent") {
        Some(n) => Some((n % 256) as u8),
        None => None,
    }
}

/// The progress bar's width: the percentage, or 0%.
pub fn progress_width(pct: Option<u8>) -> (r: String)
    ensures
        r@ == match pct {
            Some(p) => nat_decimal(p as nat) + "%"@,
            None => "0%"@,
        },
{
    match pct {
        Some(p) => {
            let mut out = u64_decimal(p as u64);
            push_str(&mut out, "%");
            string_of(&out)
        },
        None => owned("0%"),
    }
}

/// The terminal card's class: success for `complete`, failure otherwise.
pub fn terminal_class(ev: &Json) -> (r: &'static str)
    ensures
        r@ == if str_at_or(ev@, "stage"@, ""@) == "complete"@ {
            "action-drawer__terminal action-drawer__terminal--ok"@
        } else {
            "action-drawer__terminal action-drawer__terminal--err"@
        },
{
    let stage = crate::json::str_field_or(ev, "stage", "");
    if str_eq(stage.as_str(), "complete") {
        "action-drawer__terminal action-drawer__terminal--ok"
    } else {
        "action-drawer__terminal action-drawer__terminal--err"
    }
}

/// An item's identifier text: its key value, a string as it is and any
/// other value as compact JSON; empty without one.
pub open spec fn item_id_text(item: JsonV, key: Seq<char>) -> Seq<char> {
    match item.get(key) {
        Some(JsonV::Str(s)) => s,
        Some(v) => compact(v),
        None => Seq::empty(),
    }
}

pub fn item_id(item: &Json, key: &str) -> (r: String)
    ensures
        r@ == item_id_text(item@, key@),
{
    match json_get(item, key) {
        Some(Json::Str(s)) => owned(s.as_str()),
        Some(v) => compact_json(v),
        None => {
            proof {
                reveal_strlit("");
                assert(""@ =~= Seq::<char>::empty());
            }
            owned("")
        },
    }
}

/// An item's title: its `label`, else its `name`, else its `manufacturer`.
pub open spec fn item_title_of(item: JsonV) -> Option<Seq<char>> {
    match item.at("label"@).as_str() {
        Some(t) => Some(t),
        None => match item.at("name"@).as_str() {
            Some(t) => Some(t),
            None => item.at("manufacturer"@).as_str(),
        },
    }
}

pub fn item_title(item: &Json) -> (r: Option<String>)
    ensures
        crate::json::opt_view(r) == item_title_of(item@),
{
    match crate::json::str_field(item, "label") {
        Some(t) => Some(t),
        None => match crate::json::str_field(item, "name") {
            Some(t) => Some(t),
            None => crate::json::str_field(item, "manufacturer"),
        },
    }
}

/// A status as a class modifier: ASCII letters and digits lower-cased, every
/// other character `_`.
pub open spec fn css_safe(s: Seq<char>) -> Seq<char> {
    Seq::new(s.len(), |i: int| if is_ascii_alnum(s[i]) { ascii_lower(s[i]) } else { '_' })
}

pub open spec fn status_class_of(status: Option<Seq<char>>) -> Seq<char> {
    match status {
        Some(s) => "action-drawer__item-status action-drawer__item-status--"@ + css_safe(s),
        None => "action-drawer__item-status"@,
    }
}

/// The class of an item's status pill.
pub fn item_status_class(item: &Json) -> (r: String)
    ensures
        r@ == status_class_of(item@.at("status"@).as_str()),
{
    match crate::json::str_field(item, "status") {
        Some(s) => {
            let cs = chars_of(s.as_str());
            let mut out: Vec<char> = Vec::new();
            push_str(&mut out, "action-drawer__item-status action-drawer__item-status--");
            let ghost prefix = out@;
            let mut i: usize = 0;
            while i < cs.len()
                invariant
                    i <= cs.len(),
                    out@ == prefix + css_safe(cs@).take(i as int),
                decreases cs.len() - i,
            {
                let c = cs[i];
                let alnum = ('0' <= c && c <= '9') || ('a' <= c && c <= 'z') || ('A' <= c && c <= 'Z');
                if alnum {
                    out.push(to_ascii_lower(c));
                } else {
                    out.push('_');
                }
                assert(css_safe(cs@).take(i + 1) =~= css_safe(cs@).take(i as int).push(css_safe(cs@)[i as int]));
                i = i + 1;
            }
            assert(css_safe(cs@).take(cs.len() as int) =~= css_safe(cs@));
            string_of(&out)
        },
        None => owned("action-drawer__item-status"),
    }
}

/// A warning's message, or nothing.
pub fn warning_message(w: &Json) -> (r: String)
    ensures
        r@ == str_at_or(w@, "message"@, ""@),
{
    crate::json::str_field_or(w, "message", "")
}

} // verus!
