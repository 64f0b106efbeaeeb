//! The device command picker of the rule editor: which commands a device
//! offers, the state a command sends, and which command a stored state is.
use vstd::prelude::*;
use crate::text::{str_eq, owned, lemma_sig_differs};
use crate::json::{Json, JsonV, json_get, make_object, json_string, entries_view, bool_at, entries_get_from};
use crate::criteria::{int_json, int_value};

verus! {

/// What the picker reads of a device: its kind, as the device model tells
/// it, and its attributes.
pub struct DeviceCaps {
    pub is_timer: bool,
    pub is_scene: bool,
    pub is_media_player: bool,
    pub has_favorites: bool,
    pub has_playlists: bool,
    /// The attribute map, as an object.
    pub attributes: Json,
}

/// Whether an attribute is present.
pub open spec fn has_attr(attrs: JsonV, k: Seq<char>) -> bool {
    attrs.get(k) is Some
}

/// Whether an attribute is a number.
pub open spec fn has_number(attrs: JsonV, k: Seq<char>) -> bool {
    attrs.get(k) matches Some(JsonV::Num(_))
}

pub open spec fn opt_push(s: Seq<(Seq<char>, Seq<char>)>, cond: bool, c: (Seq<char>, Seq<char>)) -> Seq<
    (Seq<char>, Seq<char>),
> {
    if cond {
        s.push(c)
    } else {
        s
    }
}

/// The on/off, level and lock commands that a device's attributes allow.
pub open spec fn basic_commands(a: JsonV) -> Seq<(Seq<char>, Seq<char>)> {
    let s0: Seq<(Seq<char>, Seq<char>)> = if has_attr(a, "on"@) {
        seq![("on_true"@, "Turn on"@), ("on_false"@, "Turn off"@)]
    } else {
        Seq::empty()
    };
    let s1 = opt_push(s0, has_number(a, "brightness_pct"@), ("brightness_pct"@, "Set brightness"@));
    let s2 = opt_push(s1, has_number(a, "color_temp"@), ("color_temp"@, "Set color temperature"@));
    let s3 = opt_push(s2, has_number(a, "position"@), ("position"@, "Set position"@));
    if has_attr(a, "locked"@) {
        s3.push(("lock"@, "Lock"@)).push(("unlock"@, "Unlock"@))
    } else {
        s3
    }
}

/// The media player commands, after `s`.
pub open spec fn media_commands(
    s: Seq<(Seq<char>, Seq<char>)>,
    a: JsonV,
    favorites: bool,
    playlists: bool,
) -> Seq<(Seq<char>, Seq<char>)> {
    let m = s.push(("play"@, "Play"@)).push(("pause"@, "Pause"@)).push(("stop"@, "Stop"@)).push(
        ("next"@, "Next track"@),
    ).push(("prev"@, "Previous track"@));
    let m1 = opt_push(m, has_number(a, "volume"@), ("set_volume"@, "Set volume"@));
    let m2 = opt_push(m1, has_attr(a, "muted"@), ("set_mute"@, "Set mute"@));
    let m3 = opt_push(m2, has_attr(a, "shuffle"@), ("set_shuffle"@, "Set shuffle"@));
    let m4 = opt_push(m3, favorites, ("play_favorite"@, "Play favorite"@));
    opt_push(m4, playlists, ("play_playlist"@, "Play playlist"@))
}

/// The commands a device offers, with their labels: a timer's five, a
/// scene's activation, or what its attributes and media support allow.
pub open spec fn commands_of(d: DeviceCaps) -> Seq<(Seq<char>, Seq<char>)> {
    if d.is_timer {
        seq![
            ("timer_start"@, "Start timer"@),
            ("timer_cancel"@, "Cancel timer"@),
            ("timer_pause"@, "Pause timer"@),
            ("timer_resume"@, "Resume timer"@),
            ("timer_restart"@, "Restart timer"@),
        ]
    } else if d.is_scene {
        seq![("activate"@, "Activate scene"@)]
    } else if d.is_media_player {
        media_commands(basic_commands(d.attributes@), d.attributes@, d.has_favorites, d.has_playlists)
    } else {
        basic_commands(d.attributes@)
    }
}

pub open spec fn static_pairs_view(v: Seq<(&'static str, &'static str)>) -> Seq<(Seq<char>, Seq<char>)> {
    Seq::new(v.len(), |i: int| (v[i].0@, v[i].1@))
}

fn has_key(attrs: &Json, k: &str) -> (r: bool)
    ensures
        r == has_attr(attrs@, k@),
{
    json_get(attrs, k).is_some()
}

fn has_num(attrs: &Json, k: &str) -> (r: bool)
    ensures
        r == has_number(attrs@, k@),
{
    match json_get(attrs, k) {
        Some(Json::Number(_)) => true,
        _ => false,
    }
}

fn push_cmd(v: &mut Vec<(&'static str, &'static str)>, cmd: &'static str, label: &'static str)
    ensures
        static_pairs_view(final(v)@) == static_pairs_view(old(v)@).push((cmd@, label@)),
{
    let ghost before = v@;
    v.push((cmd, label));
    assert(static_pairs_view(v@) =~= static_pairs_view(before).push((cmd@, label@)));
}

fn push_basic(cmds: &mut Vec<(&'static str, &'static str)>, a: &Json)
    requires
        old(cmds)@.len() == 0,
    ensures
        static_pairs_view(final(cmds)@) == basic_commands(a@),
{
    assert(static_pairs_view(cmds@) =~= Seq::<(Seq<char>, Seq<char>)>::empty());
    if has_key(a, "on") {
        push_cmd(cmds, "on_true", "Turn on");
        push_cmd(cmds, "on_false", "Turn off");
    }
    if has_num(a, "brightness_pct") {
        push_cmd(cmds, "brightness_pct", "Set brightness");
    }
    if has_num(a, "color_temp") {
        push_cmd(cmds, "color_temp", "Set color temperature");
    }
    if has_num(a, "position") {
        push_cmd(cmds, "position", "Set position");
    }
    if has_key(a, "locked") {
        push_cmd(cmds, "lock", "Lock");
        push_cmd(cmds, "unlock", "Unlock");
    }
}

fn push_media(cmds: &mut Vec<(&'static str, &'static str)>, a: &Json, favorites: bool, playlists: bool)
    ensures
        static_pairs_view(final(cmds)@) == media_commands(static_pairs_view(old(cmds)@), a@, favorites, playlists),
{
    push_cmd(cmds, "play", "Play");
    push_cmd(cmds, "pause", "Pause");
    push_cmd(cmds, "stop", "Stop");
    push_cmd(cmds, "next", "Next track");
    push_cmd(cmds, "prev", "Previous track");
    if has_num(a, "volume") {
        push_cmd(cmds, "set_volume", "Set volume");
    }
    if has_key(a, "muted") {
        push_cmd(cmds, "set_mute", "Set mute");
    }
    if has_key(a, "shuffle") {
        push_cmd(cmds, "set_shuffle", "Set shuffle");
    }
    if favorites {
        push_cmd(cmds, "play_favorite", "Play favorite");
    }
    if playlists {
        push_cmd(cmds, "play_playlist", "Play playlist");
    }
}

pub fn device_commands(d: &DeviceCaps) -> (r: Vec<(&'static str, &'static str)>)
    ensures
        static_pairs_view(r@) == commands_of(*d),
{
    let mut cmds: Vec<(&'static str, &'static str)> = Vec::new();
    assert(static_pairs_view(cmds@) =~= Seq::<(Seq<char>, Seq<char>)>::empty());
    if d.is_timer {
        push_cmd(&mut cmds, "timer_start", "Start timer");
        push_cmd(&mut cmds, "timer_cancel", "Cancel timer");
        push_cmd(&mut cmds, "timer_pause", "Pause timer");
        push_cmd(&mut cmds, "timer_resume", "Resume timer");
        push_cmd(&mut cmds, "timer_restart", "Restart timer");
        return cmds;
    }
    if d.is_scene {
        push_cmd(&mut cmds, "activate", "Activate scene");
        return cmds;
    }
    push_basic(&mut cmds, &d.attributes);
    if d.is_media_player {
        push_media(&mut cmds, &d.attributes, d.has_favorites, d.has_playlists);
    }
    cmds
}

// ── Commands and states ──────────────────────────────────────────────────────
/// The command a stored timer command stands for.
pub open spec fn timer_command_of(cmd: Seq<char>) -> Seq<char> {
    if cmd == "start"@ {
        "timer_start"@
    } else if cmd == "cancel"@ {
        "timer_cancel"@
    } else if cmd == "pause"@ {
        "timer_pause"@
    } else if cmd == "resume"@ {
        "timer_resume"@
    } else if cmd == "restart"@ {
        "timer_restart"@
    } else {
        cmd
    }
}

/// The command a stored media action stands for (`previous` is `prev`).
pub open spec fn media_command_of(act: Seq<char>) -> Seq<char> {
    if act == "previous"@ {
        "prev"@
    } else {
        act
    }
}

/// Which command a stored state is: by its `command`, `activate`,
/// `action`, `on`, `locked`, or level attribute, in that order; empty when
/// none applies.
pub open spec fn detect_command_of(state: JsonV) -> Seq<char> {
    if !(state is Obj) {
        Seq::empty()
    } else if state.at("command"@).as_str() is Some {
        timer_command_of(state.at("command"@).as_str().unwrap())
    } else if bool_at(state, "activate"@) == Some(true) {
        "activate"@
    } else if state.at("action"@).as_str() is Some {
        media_command_of(state.at("action"@).as_str().unwrap())
    } else if state.get("on"@) is Some {
        if bool_at(state, "on"@) == Some(true) {
            "on_true"@
        } else {
            "on_false"@
        }
    } else if state.get("locked"@) is Some {
        if bool_at(state, "locked"@) == Some(true) {
            "lock"@
        } else {
            "unlock"@
        }
    } else if state.get("brightness_pct"@) is Some {
        "brightness_pct"@
    } else if state.get("color_temp"@) is Some {
        "color_temp"@
    } else if state.get("position"@) is Some {
        "position"@
    } else {
        Seq::empty()
    }
}

pub fn detect_command(state: &Json) -> (r: String)
    ensures
        r@ == detect_command_of(state@),
{
    proof {
        reveal_strlit("");
        assert(""@ =~= Seq::<char>::empty());
    }
    match state {
        Json::Object(_) => {},
        _ => {
            return owned("");
        },
    }
    match crate::json::str_field(state, "command") {
        Some(cmd) => {
            let c = cmd.as_str();
            return if str_eq(c, "start") {
                owned("timer_start")
            } else if str_eq(c, "cancel") {
                owned("timer_cancel")
            } else if str_eq(c, "pause") {
                owned("timer_pause")
            } else if str_eq(c, "resume") {
                owned("timer_resume")
            } else if str_eq(c, "restart") {
                owned("timer_restart")
            } else {
                owned(c)
            };
        },
        None => {},
    }
    if crate::json::bool_field(state, "activate") == Some(true) {
        return owned("activate");
    }
    match crate::json::str_field(state, "action") {
        Some(act) => {
            return if str_eq(act.as_str(), "previous") {
                owned("prev")
            } else {
                owned(act.as_str())
            };
        },
        None => {},
    }
    if json_get(state, "on").is_some() {
        return if crate::json::bool_field(state, "on") == Some(true) {
            owned("on_true")
        } else {
            owned("on_false")
        };
    }
    if json_get(state, "locked").is_some() {
        return if crate::json::bool_field(state, "locked") == Some(true) {
            owned("lock")
        } else {
            owned("unlock")
        };
    }
    if json_get(state, "brightness_pct").is_some() {
        return owned("brightness_pct");
    }
    if json_get(state, "color_temp").is_some() {
        return owned("color_temp");
    }
    if json_get(state, "position").is_some() {
        return owned("position");
    }
    owned("")
}

pub open spec fn obj1(k: Seq<char>, v: JsonV) -> JsonV {
    JsonV::Obj(seq![(k, v)])
}

pub open spec fn obj2(k1: Seq<char>, v1: JsonV, k2: Seq<char>, v2: JsonV) -> JsonV {
    JsonV::Obj(seq![(k1, v1), (k2, v2)])
}

pub open spec fn level_or(attrs: JsonV, k: Seq<char>, d: int) -> int {
    match attrs.get(k) {
        Some(v) => match v.as_i64() {
            Some(n) => n,
            None => d,
        },
        None => d,
    }
}

/// The state a command sends; level commands start from the device's
/// current level (or a default), and unknown commands send `{}`.
pub open spec fn command_state_of(cmd: Seq<char>, attrs: JsonV) -> JsonV {
    if cmd == "timer_start"@ {
        obj2("command"@, JsonV::Str("start"@), "duration_secs"@, int_json(300))
    } else if cmd == "timer_cancel"@ {
        obj1("command"@, JsonV::Str("cancel"@))
    } else if cmd == "timer_pause"@ {
        obj1("command"@, JsonV::Str("pause"@))
    } else if cmd == "timer_resume"@ {
        obj1("command"@, JsonV::Str("resume"@))
    } else if cmd == "timer_restart"@ {
        obj1("command"@, JsonV::Str("restart"@))
    } else if cmd == "activate"@ {
        obj1("activate"@, JsonV::Bool(true))
    } else if cmd == "on_true"@ {
        obj1("on"@, JsonV::Bool(true))
    } else if cmd == "on_false"@ {
        obj1("on"@, JsonV::Bool(false))
    } else if cmd == "brightness_pct"@ {
        obj1("brightness_pct"@, int_json(level_or(attrs, "brightness_pct"@, 50)))
    } else if cmd == "color_temp"@ {
        obj1("color_temp"@, int_json(level_or(attrs, "color_temp"@, 2700)))
    } else if cmd == "position"@ {
        obj1("position"@, int_json(level_or(attrs, "position"@, 50)))
    } else if cmd == "lock"@ {
        obj1("locked"@, JsonV::Bool(true))
    } else if cmd == "unlock"@ {
        obj1("locked"@, JsonV::Bool(false))
    } else if cmd == "play"@ {
        obj1("action"@, JsonV::Str("play"@))
    } else if cmd == "pause"@ {
        obj1("action"@, JsonV::Str("pause"@))
    } else if cmd == "stop"@ {
        obj1("action"@, JsonV::Str("stop"@))
    } else if cmd == "next"@ {
        obj1("action"@, JsonV::Str("next"@))
    } else if cmd == "prev"@ {
        obj1("action"@, JsonV::Str("previous"@))
    } else if cmd == "set_volume"@ {
        obj2("action"@, JsonV::Str("set_volume"@), "volume"@, int_json(level_or(attrs, "volume"@, 20)))
    } else if cmd == "set_mute"@ {
        obj2("action"@, JsonV::Str("set_mute"@), "muted"@, JsonV::Bool(false))
    } else if cmd == "set_shuffle"@ {
        obj2("action"@, JsonV::Str("set_shuffle"@), "shuffle"@, JsonV::Bool(false))
    } else if cmd == "play_favorite"@ {
        obj2("action"@, JsonV::Str("play_favorite"@), "favorite"@, JsonV::Str(""@))
    } else if cmd == "play_playlist"@ {
        obj2("action"@, JsonV::Str("play_playlist"@), "playlist"@, JsonV::Str(""@))
    } else {
        JsonV::Obj(Seq::empty())
    }
}

fn mk1(k: &str, v: Json) -> (r: Json)
    ensures
        r@ == obj1(k@, v@),
{
    let mut e: Vec<(String, Json)> = Vec::new();
    e.push((owned(k), v));
    assert(entries_view(e@) =~= seq![(k@, v@)]);
    make_object(e)
}

fn mk2(k1: &str, v1: Json, k2: &str, v2: Json) -> (r: Json)
    ensures
        r@ == obj2(k1@, v1@, k2@, v2@),
{
    let mut e: Vec<(String, Json)> = Vec::new();
    e.push((owned(k1), v1));
    e.push((owned(k2), v2));
    assert(entries_view(e@) =~= seq![(k1@, v1@), (k2@, v2@)]);
    make_object(e)
}

fn level(attrs: &Json, k: &str, d: i64) -> (r: i64)
    ensures
        r as int == level_or(attrs@, k@, d as int),
{
    match json_get(attrs, k) {
        Some(v) => match crate::json::json_as_i64(v) {
            Some(n) => n,
            None => d,
        },
        None => d,
    }
}

pub fn command_to_state(cmd: &str, attrs: &Json) -> (r: Json)
    ensures
        r@ == command_state_of(cmd@, attrs@),
{
    if str_eq(cmd, "timer_start") {
        mk2("command", json_string("start"), "duration_secs", int_value(300))
    } else if str_eq(cmd, "timer_cancel") {
        mk1("command", json_string("cancel"))
    } else if str_eq(cmd, "timer_pause") {
        mk1("command", json_string("pause"))
    } else if str_eq(cmd, "timer_resume") {
        mk1("command", json_string("resume"))
    } else if str_eq(cmd, "timer_restart") {
        mk1("command", json_string("restart"))
    } else if str_eq(cmd, "activate") {
        mk1("activate", Json::Bool(true))
    } else if str_eq(cmd, "on_true") {
        mk1("on", Json::Bool(true))
    } else if str_eq(cmd, "on_false") {
        mk1("on", Json::Bool(false))
    } else if str_eq(cmd, "brightness_pct") {
        mk1("brightness_pct", int_value(level(attrs, "brightness_pct", 50)))
    } else if str_eq(cmd, "color_temp") {
        mk1("color_temp", int_value(level(attrs, "color_temp", 2700)))
    } else if str_eq(cmd, "position") {
        mk1("position", int_value(level(attrs, "position", 50)))
    } else if str_eq(cmd, "lock") {
        mk1("locked", Json::Bool(true))
    } else if str_eq(cmd, "unlock") {
        mk1("locked", Json::Bool(false))
    } else if str_eq(cmd, "play") {
        mk1("action", json_string("play"))
    } else if str_eq(cmd, "pause") {
        mk1("action", json_string("pause"))
    } else if str_eq(cmd, "stop") {
        mk1("action", json_string("stop"))
    } else if str_eq(cmd, "next") {
        mk1("action", json_string("next"))
    } else if str_eq(cmd, "prev") {
        mk1("action", json_string("previous"))
    } else if str_eq(cmd, "set_volume") {
        mk2("action", json_string("set_volume"), "volume", int_value(level(attrs, "volume", 20)))
    } else if str_eq(cmd, "set_mute") {
        mk2("action", json_string("set_mute"), "muted", Json::Bool(false))
    } else if str_eq(cmd, "set_shuffle") {
        mk2("action", json_string("set_shuffle"), "shuffle", Json::Bool(false))
    } else if str_eq(cmd, "play_favorite") {
        mk2("action", json_string("play_favorite"), "favorite", json_string(""))
    } else if str_eq(cmd, "play_playlist") {
        mk2("action", json_string("play_playlist"), "playlist", json_string(""))
    } else {
        let e: Vec<(String, Json)> = Vec::new();
        assert(entries_view(e@) =~= Seq::<(Seq<char>, JsonV)>::empty());
        make_object(e)
    }
}

/// The commands a device can offer (see `commands_of`).
pub open spec fn command_keys() -> Seq<Seq<char>> {
    seq![
        "timer_start"@,
        "timer_cancel"@,
        "timer_pause"@,
        "timer_resume"@,
        "timer_restart"@,
        "activate"@,
        "on_true"@,
        "on_false"@,
        "brightness_pct"@,
        "color_temp"@,
        "position"@,
        "lock"@,
        "unlock"@,
        "play"@,
        "pause"@,
        "stop"@,
        "next"@,
        "prev"@,
        "set_volume"@,
        "set_mute"@,
        "set_shuffle"@,
        "play_favorite"@,
        "play_playlist"@,
    ]
}

/// Reading back the command of the state a command sends gives the command,
/// for every command a device can offer, whatever the device's attributes.
#[verifier::spinoff_prover]
pub proof fn law_detect_command_roundtrip(cmd: Seq<char>, attrs: JsonV)
    requires
        command_keys().contains(cmd),
    ensures
        detect_command_of(command_state_of(cmd, attrs)) == cmd,
{
    reveal_with_fuel(entries_get_from, 3);
    reveal_strlit("action");
    reveal_strlit("activate");
    reveal_strlit("brightness_pct");
    reveal_strlit("cancel");
    reveal_strlit("color_temp");
    reveal_strlit("command");
    reveal_strlit("duration_secs");
    reveal_strlit("favorite");
    reveal_strlit("lock");
    reveal_strlit("locked");
    reveal_strlit("muted");
    reveal_strlit("next");
    reveal_strlit("on");
    reveal_strlit("on_false");
    reveal_strlit("on_true");
    reveal_strlit("pause");
    reveal_strlit("play");
    reveal_strlit("play_favorite");
    reveal_strlit("play_playlist");
    reveal_strlit("playlist");
    reveal_strlit("position");
    reveal_strlit("prev");
    reveal_strlit("previous");
    reveal_strlit("restart");
    reveal_strlit("resume");
    reveal_strlit("set_mute");
    reveal_strlit("set_shuffle");
    reveal_strlit("set_volume");
    reveal_strlit("shuffle");
    reveal_strlit("start");
    reveal_strlit("stop");
    reveal_strlit("timer_cancel");
    reveal_strlit("timer_pause");
    reveal_strlit("timer_restart");
    reveal_strlit("timer_resume");
    reveal_strlit("timer_start");
    reveal_strlit("unlock");
    reveal_strlit("volume");
    let i = choose|i: int| 0 <= i < command_keys().len() && command_keys()[i] == cmd;
    if i == 0 {
        assert(cmd == "timer_start"@);
        lemma_sig_differs("duration_secs"@, "command"@);
    }
    if i == 1 {
        assert(cmd == "timer_cancel"@);
        lemma_sig_differs("timer_cancel"@, "timer_start"@);
        lemma_sig_differs("cancel"@, "start"@);
    }
    if i == 2 {
        assert(cmd == "timer_pause"@);
        lemma_sig_differs("timer_pause"@, "timer_start"@);
        lemma_sig_differs("timer_pause"@, "timer_cancel"@);
        lemma_sig_differs("pause"@, "start"@);
        lemma_sig_differs("pause"@, "cancel"@);
    }
    if i == 3 {
        assert(cmd == "timer_resume"@);
        lemma_sig_differs("timer_resume"@, "timer_start"@);
        lemma_sig_differs("timer_resume"@, "timer_cancel"@);
        lemma_sig_differs("timer_resume"@, "timer_pause"@);
        lemma_sig_differs("resume"@, "start"@);
        lemma_sig_differs("resume"@, "cancel"@);
        lemma_sig_differs("resume"@, "pause"@);
    }
    if i == 4 {
        assert(cmd == "timer_restart"@);
        lemma_sig_differs("timer_restart"@, "timer_start"@);
        lemma_sig_differs("timer_restart"@, "timer_cancel"@);
        lemma_sig_differs("timer_restart"@, "timer_pause"@);
        lemma_sig_differs("timer_restart"@, "timer_resume"@);
        lemma_sig_differs("restart"@, "start"@);
        lemma_sig_differs("restart"@, "cancel"@);
        lemma_sig_differs("restart"@, "pause"@);
        lemma_sig_differs("restart"@, "resume"@);
    }
    if i == 5 {
        assert(cmd == "activate"@);
        lemma_sig_differs("activate"@, "timer_start"@);
        lemma_sig_differs("activate"@, "timer_cancel"@);
        lemma_sig_differs("activate"@, "timer_pause"@);
        lemma_sig_differs("activate"@, "timer_resume"@);
        lemma_sig_differs("activate"@, "timer_restart"@);
        lemma_sig_differs("activate"@, "command"@);
    }
    if i == 6 {
        assert(cmd == "on_true"@);
        lemma_sig_differs("on_true"@, "timer_start"@);
        lemma_sig_differs("on_true"@, "timer_cancel"@);
        lemma_sig_differs("on_true"@, "timer_pause"@);
        lemma_sig_differs("on_true"@, "timer_resume"@);
        lemma_sig_differs("on_true"@, "timer_restart"@);
        lemma_sig_differs("on_true"@, "activate"@);
        lemma_sig_differs("on"@, "command"@);
        lemma_sig_differs("on"@, "activate"@);
        lemma_sig_differs("on"@, "action"@);
    }
    if i == 7 {
        assert(cmd == "on_false"@);
        lemma_sig_differs("on_false"@, "timer_start"@);
        lemma_sig_differs("on_false"@, "timer_cancel"@);
        lemma_sig_differs("on_false"@, "timer_pause"@);
        lemma_sig_differs("on_false"@, "timer_resume"@);
        lemma_sig_differs("on_false"@, "timer_restart"@);
        lemma_sig_differs("on_false"@, "activate"@);
        lemma_sig_differs("on_false"@, "on_true"@);
        lemma_sig_differs("on"@, "command"@);
        lemma_sig_differs("on"@, "activate"@);
        lemma_sig_differs("on"@, "action"@);
    }
    if i == 8 {
        assert(cmd == "brightness_pct"@);
        lemma_sig_differs("brightness_pct"@, "timer_start"@);
        lemma_sig_differs("brightness_pct"@, "timer_cancel"@);
        lemma_sig_differs("brightness_pct"@, "timer_pause"@);
        lemma_sig_differs("brightness_pct"@, "timer_resume"@);
        lemma_sig_differs("brightness_pct"@, "timer_restart"@);
        lemma_sig_differs("brightness_pct"@, "activate"@);
        lemma_sig_differs("brightness_pct"@, "on_true"@);
        lemma_sig_differs("brightness_pct"@, "on_false"@);
        lemma_sig_differs("brightness_pct"@, "command"@);
        lemma_sig_differs("brightness_pct"@, "action"@);
        lemma_sig_differs("brightness_pct"@, "on"@);
        lemma_sig_differs("brightness_pct"@, "locked"@);
    }
    if i == 9 {
        assert(cmd == "color_temp"@);
        lemma_sig_differs("color_temp"@, "timer_start"@);
        lemma_sig_differs("color_temp"@, "timer_cancel"@);
        lemma_sig_differs("color_temp"@, "timer_pause"@);
        lemma_sig_differs("color_temp"@, "timer_resume"@);
        lemma_sig_differs("color_temp"@, "timer_restart"@);
        lemma_sig_differs("color_temp"@, "activate"@);
        lemma_sig_differs("color_temp"@, "on_true"@);
        lemma_sig_differs("color_temp"@, "on_false"@);
        lemma_sig_differs("color_temp"@, "brightness_pct"@);
        lemma_sig_differs("color_temp"@, "command"@);
        lemma_sig_differs("color_temp"@, "action"@);
        lemma_sig_differs("color_temp"@, "on"@);
        lemma_sig_differs("color_temp"@, "locked"@);
    }
    if i == 10 {
        assert(cmd == "position"@);
        lemma_sig_differs("position"@, "timer_start"@);
        lemma_sig_differs("position"@, "timer_cancel"@);
        lemma_sig_differs("position"@, "timer_pause"@);
        lemma_sig_differs("position"@, "timer_resume"@);
        lemma_sig_differs("position"@, "timer_restart"@);
        lemma_sig_differs("position"@, "activate"@);
        lemma_sig_differs("position"@, "on_true"@);
        lemma_sig_differs("position"@, "on_false"@);
        lemma_sig_differs("position"@, "brightness_pct"@);
        lemma_sig_differs("position"@, "color_temp"@);
        lemma_sig_differs("position"@, "command"@);
        lemma_sig_differs("position"@, "action"@);
        lemma_sig_differs("position"@, "on"@);
        lemma_sig_differs("position"@, "locked"@);
    }
    if i == 11 {
        assert(cmd == "lock"@);
        lemma_sig_differs("lock"@, "timer_start"@);
        lemma_sig_differs("lock"@, "timer_cancel"@);
        lemma_sig_differs("lock"@, "timer_pause"@);
        lemma_sig_differs("lock"@, "timer_resume"@);
        lemma_sig_differs("lock"@, "timer_restart"@);
        lemma_sig_differs("lock"@, "activate"@);
        lemma_sig_differs("lock"@, "on_true"@);
        lemma_sig_differs("lock"@, "on_false"@);
        lemma_sig_differs("lock"@, "brightness_pct"@);
        lemma_sig_differs("lock"@, "color_temp"@);
        lemma_sig_differs("lock"@, "position"@);
        lemma_sig_differs("locked"@, "command"@);
        lemma_sig_differs("locked"@, "activate"@);
        lemma_sig_differs("locked"@, "action"@);
        lemma_sig_differs("locked"@, "on"@);
    }
    if i == 12 {
        assert(cmd == "unlock"@);
        lemma_sig_differs("unlock"@, "timer_start"@);
        lemma_sig_differs("unlock"@, "timer_cancel"@);
        lemma_sig_differs("unlock"@, "timer_pause"@);
        lemma_sig_differs("unlock"@, "timer_resume"@);
        lemma_sig_differs("unlock"@, "timer_restart"@);
        lemma_sig_differs("unlock"@, "activate"@);
        lemma_sig_differs("unlock"@, "on_true"@);
        lemma_sig_differs("unlock"@, "on_false"@);
        lemma_sig_differs("unlock"@, "brightness_pct"@);
        lemma_sig_differs("unlock"@, "color_temp"@);
        lemma_sig_differs("unlock"@, "position"@);
        lemma_sig_differs("unlock"@, "lock"@);
        lemma_sig_differs("locked"@, "command"@);
        lemma_sig_differs("locked"@, "activate"@);
        lemma_sig_differs("locked"@, "action"@);
        lemma_sig_differs("locked"@, "on"@);
    }
    if i == 13 {
        assert(cmd == "play"@);
        lemma_sig_differs("play"@, "timer_start"@);
        lemma_sig_differs("play"@, "timer_cancel"@);
        lemma_sig_differs("play"@, "timer_pause"@);
        lemma_sig_differs("play"@, "timer_resume"@);
        lemma_sig_differs("play"@, "timer_restart"@);
        lemma_sig_differs("play"@, "activate"@);
        lemma_sig_differs("play"@, "on_true"@);
        lemma_sig_differs("play"@, "on_false"@);
        lemma_sig_differs("play"@, "brightness_pct"@);
        lemma_sig_differs("play"@, "color_temp"@);
        lemma_sig_differs("play"@, "position"@);
        lemma_sig_differs("play"@, "lock"@);
        lemma_sig_differs("play"@, "unlock"@);
        lemma_sig_differs("action"@, "command"@);
        lemma_sig_differs("action"@, "activate"@);
        lemma_sig_differs("play"@, "previous"@);
    }
    if i == 14 {
        assert(cmd == "pause"@);
        lemma_sig_differs("pause"@, "timer_start"@);
        lemma_sig_differs("pause"@, "timer_cancel"@);
        lemma_sig_differs("pause"@, "timer_pause"@);
        lemma_sig_differs("pause"@, "timer_resume"@);
        lemma_sig_differs("pause"@, "timer_restart"@);
        lemma_sig_differs("pause"@, "activate"@);
        lemma_sig_differs("pause"@, "on_true"@);
        lemma_sig_differs("pause"@, "on_false"@);
        lemma_sig_differs("pause"@, "brightness_pct"@);
        lemma_sig_differs("pause"@, "color_temp"@);
        lemma_sig_differs("pause"@, "position"@);
        lemma_sig_differs("pause"@, "lock"@);
        lemma_sig_differs("pause"@, "unlock"@);
        lemma_sig_differs("pause"@, "play"@);
        lemma_sig_differs("action"@, "command"@);
        lemma_sig_differs("action"@, "activate"@);
        lemma_sig_differs("pause"@, "previous"@);
    }
    if i == 15 {
        assert(cmd == "stop"@);
        lemma_sig_differs("stop"@, "timer_start"@);
        lemma_sig_differs("stop"@, "timer_cancel"@);
        lemma_sig_differs("stop"@, "timer_pause"@);
        lemma_sig_differs("stop"@, "timer_resume"@);
        lemma_sig_differs("stop"@, "timer_restart"@);
        lemma_sig_differs("stop"@, "activate"@);
        lemma_sig_differs("stop"@, "on_true"@);
        lemma_sig_differs("stop"@, "on_false"@);
        lemma_sig_differs("stop"@, "brightness_pct"@);
        lemma_sig_differs("stop"@, "color_temp"@);
        lemma_sig_differs("stop"@, "position"@);
        lemma_sig_differs("stop"@, "lock"@);
        lemma_sig_differs("stop"@, "unlock"@);
        lemma_sig_differs("stop"@, "play"@);
        lemma_sig_differs("stop"@, "pause"@);
        lemma_sig_differs("action"@, "command"@);
        lemma_sig_differs("action"@, "activate"@);
        lemma_sig_differs("stop"@, "previous"@);
    }
    if i == 16 {
        assert(cmd == "next"@);
        lemma_sig_differs("next"@, "timer_start"@);
        lemma_sig_differs("next"@, "timer_cancel"@);
        lemma_sig_differs("next"@, "timer_pause"@);
        lemma_sig_differs("next"@, "timer_resume"@);
        lemma_sig_differs("next"@, "timer_restart"@);
        lemma_sig_differs("next"@, "activate"@);
        lemma_sig_differs("next"@, "on_true"@);
        lemma_sig_differs("next"@, "on_false"@);
        lemma_sig_differs("next"@, "brightness_pct"@);
        lemma_sig_differs("next"@, "color_temp"@);
        lemma_sig_differs("next"@, "position"@);
        lemma_sig_differs("next"@, "lock"@);
        lemma_sig_differs("next"@, "unlock"@);
        lemma_sig_differs("next"@, "play"@);
        lemma_sig_differs("next"@, "pause"@);
        lemma_sig_differs("next"@, "stop"@);
        lemma_sig_differs("action"@, "command"@);
        lemma_sig_differs("action"@, "activate"@);
        lemma_sig_differs("next"@, "previous"@);
    }
    if i == 17 {
        assert(cmd == "prev"@);
        lemma_sig_differs("prev"@, "timer_start"@);
        lemma_sig_differs("prev"@, "timer_cancel"@);
        lemma_sig_differs("prev"@, "timer_pause"@);
        lemma_sig_differs("prev"@, "timer_resume"@);
        lemma_sig_differs("prev"@, "timer_restart"@);
        lemma_sig_differs("prev"@, "activate"@);
        lemma_sig_differs("prev"@, "on_true"@);
        lemma_sig_differs("prev"@, "on_false"@);
        lemma_sig_differs("prev"@, "brightness_pct"@);
        lemma_sig_differs("prev"@, "color_temp"@);
        lemma_sig_differs("prev"@, "position"@);
        lemma_sig_differs("prev"@, "lock"@);
        lemma_sig_differs("prev"@, "unlock"@);
        lemma_sig_differs("prev"@, "play"@);
        lemma_sig_differs("prev"@, "pause"@);
        lemma_sig_differs("prev"@, "stop"@);
        lemma_sig_differs("prev"@, "next"@);
        lemma_sig_differs("action"@, "command"@);
        lemma_sig_differs("action"@, "activate"@);
    }
    if i == 18 {
        assert(cmd == "set_volume"@);
        lemma_sig_differs("set_volume"@, "timer_start"@);
        lemma_sig_differs("set_volume"@, "timer_cancel"@);
        lemma_sig_differs("set_volume"@, "timer_pause"@);
        lemma_sig_differs("set_volume"@, "timer_resume"@);
        lemma_sig_differs("set_volume"@, "timer_restart"@);
        lemma_sig_differs("set_volume"@, "activate"@);
        lemma_sig_differs("set_volume"@, "on_true"@);
        lemma_sig_differs("set_volume"@, "on_false"@);
        lemma_sig_differs("set_volume"@, "brightness_pct"@);
        lemma_sig_differs("set_volume"@, "color_temp"@);
        lemma_sig_differs("set_volume"@, "position"@);
        lemma_sig_differs("set_volume"@, "lock"@);
        lemma_sig_differs("set_volume"@, "unlock"@);
        lemma_sig_differs("set_volume"@, "play"@);
        lemma_sig_differs("set_volume"@, "pause"@);
        lemma_sig_differs("set_volume"@, "stop"@);
        lemma_sig_differs("set_volume"@, "next"@);
        lemma_sig_differs("set_volume"@, "prev"@);
        lemma_sig_differs("action"@, "command"@);
        lemma_sig_differs("volume"@, "command"@);
        lemma_sig_differs("action"@, "activate"@);
        lemma_sig_differs("volume"@, "activate"@);
        lemma_sig_differs("volume"@, "action"@);
        lemma_sig_differs("set_volume"@, "previous"@);
    }
    if i == 19 {
        assert(cmd == "set_mute"@);
        lemma_sig_differs("set_mute"@, "timer_start"@);
        lemma_sig_differs("set_mute"@, "timer_cancel"@);
        lemma_sig_differs("set_mute"@, "timer_pause"@);
        lemma_sig_differs("set_mute"@, "timer_resume"@);
        lemma_sig_differs("set_mute"@, "timer_restart"@);
        lemma_sig_differs("set_mute"@, "activate"@);
        lemma_sig_differs("set_mute"@, "on_true"@);
        lemma_sig_differs("set_mute"@, "on_false"@);
        lemma_sig_differs("set_mute"@, "brightness_pct"@);
        lemma_sig_differs("set_mute"@, "color_temp"@);
        lemma_sig_differs("set_mute"@, "position"@);
        lemma_sig_differs("set_mute"@, "lock"@);
        lemma_sig_differs("set_mute"@, "unlock"@);
        lemma_sig_differs("set_mute"@, "play"@);
        lemma_sig_differs("set_mute"@, "pause"@);
        lemma_sig_differs("set_mute"@, "stop"@);
        lemma_sig_differs("set_mute"@, "next"@);
        lemma_sig_differs("set_mute"@, "prev"@);
        lemma_sig_differs("set_mute"@, "set_volume"@);
        lemma_sig_differs("action"@, "command"@);
        lemma_sig_differs("muted"@, "command"@);
        lemma_sig_differs("action"@, "activate"@);
        lemma_sig_differs("muted"@, "activate"@);
        lemma_sig_differs("muted"@, "action"@);
        lemma_sig_differs("set_mute"@, "previous"@);
    }
    if i == 20 {
        assert(cmd == "set_shuffle"@);
        lemma_sig_differs("set_shuffle"@, "timer_start"@);
        lemma_sig_differs("set_shuffle"@, "timer_cancel"@);
        lemma_sig_differs("set_shuffle"@, "timer_pause"@);
        lemma_sig_differs("set_shuffle"@, "timer_resume"@);
        lemma_sig_differs("set_shuffle"@, "timer_restart"@);
        lemma_sig_differs("set_shuffle"@, "activate"@);
        lemma_sig_differs("set_shuffle"@, "on_true"@);
        lemma_sig_differs("set_shuffle"@, "on_false"@);
        lemma_sig_differs("set_shuffle"@, "brightness_pct"@);
        lemma_sig_differs("set_shuffle"@, "color_temp"@);
        lemma_sig_differs("set_shuffle"@, "position"@);
        lemma_sig_differs("set_shuffle"@, "lock"@);
        lemma_sig_differs("set_shuffle"@, "unlock"@);
        lemma_sig_differs("set_shuffle"@, "play"@);
        lemma_sig_differs("set_shuffle"@, "pause"@);
        lemma_sig_differs("set_shuffle"@, "stop"@);
        lemma_sig_differs("set_shuffle"@, "next"@);
        lemma_sig_differs("set_shuffle"@, "prev"@);
        lemma_sig_differs("set_shuffle"@, "set_volume"@);
        lemma_sig_differs("set_shuffle"@, "set_mute"@);
        lemma_sig_differs("action"@, "command"@);
        lemma_sig_differs("shuffle"@, "command"@);
        lemma_sig_differs("action"@, "activate"@);
        lemma_sig_differs("shuffle"@, "activate"@);
        lemma_sig_differs("shuffle"@, "action"@);
        lemma_sig_differs("set_shuffle"@, "previous"@);
    }
    if i == 21 {
        assert(cmd == "play_favorite"@);
        lemma_sig_differs("play_favorite"@, "timer_start"@);
        lemma_sig_differs("play_favorite"@, "timer_cancel"@);
        lemma_sig_differs("play_favorite"@, "timer_pause"@);
        lemma_sig_differs("play_favorite"@, "timer_resume"@);
        lemma_sig_differs("play_favorite"@, "timer_restart"@);
        lemma_sig_differs("play_favorite"@, "activate"@);
        lemma_sig_differs("play_favorite"@, "on_true"@);
        lemma_sig_differs("play_favorite"@, "on_false"@);
        lemma_sig_differs("play_favorite"@, "brightness_pct"@);
        lemma_sig_differs("play_favorite"@, "color_temp"@);
        lemma_sig_differs("play_favorite"@, "position"@);
        lemma_sig_differs("play_favorite"@, "lock"@);
        lemma_sig_differs("play_favorite"@, "unlock"@);
        lemma_sig_differs("play_favorite"@, "play"@);
        lemma_sig_differs("play_favorite"@, "pause"@);
        lemma_sig_differs("play_favorite"@, "stop"@);
        lemma_sig_differs("play_favorite"@, "next"@);
        lemma_sig_differs("play_favorite"@, "prev"@);
        lemma_sig_differs("play_favorite"@, "set_volume"@);
        lemma_sig_differs("play_favorite"@, "set_mute"@);
        lemma_sig_differs("play_favorite"@, "set_shuffle"@);
        lemma_sig_differs("action"@, "command"@);
        lemma_sig_differs("favorite"@, "command"@);
        lemma_sig_differs("action"@, "activate"@);
        lemma_sig_differs("favorite"@, "activate"@);
        lemma_sig_differs("favorite"@, "action"@);
        lemma_sig_differs("play_favorite"@, "previous"@);
    }
    if i == 22 {
        assert(cmd == "play_playlist"@);
        lemma_sig_differs("play_playlist"@, "timer_start"@);
        lemma_sig_differs("play_playlist"@, "timer_cancel"@);
        lemma_sig_differs("play_playlist"@, "timer_pause"@);
        lemma_sig_differs("play_playlist"@, "timer_resume"@);
        lemma_sig_differs("play_playlist"@, "timer_restart"@);
        lemma_sig_differs("play_playlist"@, "activate"@);
        lemma_sig_differs("play_playlist"@, "on_true"@);
        lemma_sig_differs("play_playlist"@, "on_false"@);
        lemma_sig_differs("play_playlist"@, "brightness_pct"@);
        lemma_sig_differs("play_playlist"@, "color_temp"@);
        lemma_sig_differs("play_playlist"@, "position"@);
        lemma_sig_differs("play_playlist"@, "lock"@);
        lemma_sig_differs("play_playlist"@, "unlock"@);
        lemma_sig_differs("play_playlist"@, "play"@);
        lemma_sig_differs("play_playlist"@, "pause"@);
        lemma_sig_differs("play_playlist"@, "stop"@);
        lemma_sig_differs("play_playlist"@, "next"@);
        lemma_sig_differs("play_playlist"@, "prev"@);
        lemma_sig_differs("play_playlist"@, "set_volume"@);
        lemma_sig_differs("play_playlist"@, "set_mute"@);
        lemma_sig_differs("play_playlist"@, "set_shuffle"@);
        lemma_sig_differs("play_playlist"@, "play_favorite"@);
        lemma_sig_differs("action"@, "command"@);
        lemma_sig_differs("playlist"@, "command"@);
        lemma_sig_differs("action"@, "activate"@);
        lemma_sig_differs("playlist"@, "activate"@);
        lemma_sig_differs("playlist"@, "action"@);
        lemma_sig_differs("play_playlist"@, "previous"@);
    }
}


/// Every command in `s` is one a device can offer.
pub open spec fn all_known(s: Seq<(Seq<char>, Seq<char>)>) -> bool {
    forall|j: int| 0 <= j < s.len() ==> command_keys().contains(#[trigger] s[j].0)
}

proof fn lemma_known_push(s: Seq<(Seq<char>, Seq<char>)>, c: (Seq<char>, Seq<char>))
    requires
        all_known(s),
        command_keys().contains(c.0),
    ensures
        all_known(s.push(c)),
{
    assert forall|j: int| 0 <= j < s.push(c).len() implies command_keys().contains(#[trigger] s.push(c)[j].0) by {
        if j < s.len() {
            assert(s.push(c)[j] == s[j]);
        }
    }
}

proof fn lemma_known_opt_push(s: Seq<(Seq<char>, Seq<char>)>, cond: bool, c: (Seq<char>, Seq<char>))
    requires
        all_known(s),
        command_keys().contains(c.0),
    ensures
        all_known(opt_push(s, cond, c)),
{
    if cond {
        lemma_known_push(s, c);
    }
}

proof fn lemma_keys_listed()
    ensures
        command_keys().contains("timer_start"@),
        command_keys().contains("timer_cancel"@),
        command_keys().contains("timer_pause"@),
        command_keys().contains("timer_resume"@),
        command_keys().contains("timer_restart"@),
        command_keys().contains("activate"@),
        command_keys().contains("on_true"@),
        command_keys().contains("on_false"@),
        command_keys().contains("brightness_pct"@),
        command_keys().contains("color_temp"@),
        command_keys().contains("position"@),
        command_keys().contains("lock"@),
        command_keys().contains("unlock"@),
        command_keys().contains("play"@),
        command_keys().contains("pause"@),
        command_keys().contains("stop"@),
        command_keys().contains("next"@),
        command_keys().contains("prev"@),
        command_keys().contains("set_volume"@),
        command_keys().contains("set_mute"@),
        command_keys().contains("set_shuffle"@),
        command_keys().contains("play_favorite"@),
        command_keys().contains("play_playlist"@),
{
    assert(command_keys()[0] == "timer_start"@);
    assert(command_keys()[1] == "timer_cancel"@);
    assert(command_keys()[2] == "timer_pause"@);
    assert(command_keys()[3] == "timer_resume"@);
    assert(command_keys()[4] == "timer_restart"@);
    assert(command_keys()[5] == "activate"@);
    assert(command_keys()[6] == "on_true"@);
    assert(command_keys()[7] == "on_false"@);
    assert(command_keys()[8] == "brightness_pct"@);
    assert(command_keys()[9] == "color_temp"@);
    assert(command_keys()[10] == "position"@);
    assert(command_keys()[11] == "lock"@);
    assert(command_keys()[12] == "unlock"@);
    assert(command_keys()[13] == "play"@);
    assert(command_keys()[14] == "pause"@);
    assert(command_keys()[15] == "stop"@);
    assert(command_keys()[16] == "next"@);
    assert(command_keys()[17] == "prev"@);
    assert(command_keys()[18] == "set_volume"@);
    assert(command_keys()[19] == "set_mute"@);
    assert(command_keys()[20] == "set_shuffle"@);
    assert(command_keys()[21] == "play_favorite"@);
    assert(command_keys()[22] == "play_playlist"@);
}

/// Every command a device offers is one whose state reads back as that
/// command, whatever the device's attributes.
pub proof fn law_offered_commands_roundtrip(d: DeviceCaps, i: int)
    requires
        0 <= i < commands_of(d).len(),
    ensures
        detect_command_of(command_state_of(commands_of(d)[i].0, d.attributes@)) == commands_of(d)[i].0,
{
    lemma_keys_listed();
    let a = d.attributes@;
    let e: Seq<(Seq<char>, Seq<char>)> = Seq::empty();
    assert(all_known(e));
    let s0: Seq<(Seq<char>, Seq<char>)> = if has_attr(a, "on"@) {
        seq![("on_true"@, "Turn on"@), ("on_false"@, "Turn off"@)]
    } else {
        Seq::empty()
    };
    if has_attr(a, "on"@) {
        lemma_known_push(e, ("on_true"@, "Turn on"@));
        lemma_known_push(e.push(("on_true"@, "Turn on"@)), ("on_false"@, "Turn off"@));
        assert(e.push(("on_true"@, "Turn on"@)).push(("on_false"@, "Turn off"@)) =~= s0);
    }
    let s1 = opt_push(s0, has_number(a, "brightness_pct"@), ("brightness_pct"@, "Set brightness"@));
    lemma_known_opt_push(s0, has_number(a, "brightness_pct"@), ("brightness_pct"@, "Set brightness"@));
    let s2 = opt_push(s1, has_number(a, "color_temp"@), ("color_temp"@, "Set color temperature"@));
    lemma_known_opt_push(s1, has_number(a, "color_temp"@), ("color_temp"@, "Set color temperature"@));
    let s3 = opt_push(s2, has_number(a, "position"@), ("position"@, "Set position"@));
    lemma_known_opt_push(s2, has_number(a, "position"@), ("position"@, "Set position"@));
    lemma_known_push(s3, ("lock"@, "Lock"@));
    lemma_known_push(s3.push(("lock"@, "Lock"@)), ("unlock"@, "Unlock"@));
    let b = basic_commands(a);
    assert(all_known(b));
    let m0 = b.push(("play"@, "Play"@));
    lemma_known_push(b, ("play"@, "Play"@));
    let m1 = m0.push(("pause"@, "Pause"@));
    lemma_known_push(m0, ("pause"@, "Pause"@));
    let m2 = m1.push(("stop"@, "Stop"@));
    lemma_known_push(m1, ("stop"@, "Stop"@));
    let m3 = m2.push(("next"@, "Next track"@));
    lemma_known_push(m2, ("next"@, "Next track"@));
    let m = m3.push(("prev"@, "Previous track"@));
    lemma_known_push(m3, ("prev"@, "Previous track"@));
    let n1 = opt_push(m, has_number(a, "volume"@), ("set_volume"@, "Set volume"@));
    lemma_known_opt_push(m, has_number(a, "volume"@), ("set_volume"@, "Set volume"@));
    let n2 = opt_push(n1, has_attr(a, "muted"@), ("set_mute"@, "Set mute"@));
    lemma_known_opt_push(n1, has_attr(a, "muted"@), ("set_mute"@, "Set mute"@));
    let n3 = opt_push(n2, has_attr(a, "shuffle"@), ("set_shuffle"@, "Set shuffle"@));
    lemma_known_opt_push(n2, has_attr(a, "shuffle"@), ("set_shuffle"@, "Set shuffle"@));
    let n4 = opt_push(n3, d.has_favorites, ("play_favorite"@, "Play favorite"@));
    lemma_known_opt_push(n3, d.has_favorites, ("play_favorite"@, "Play favorite"@));
    lemma_known_opt_push(n4, d.has_playlists, ("play_playlist"@, "Play playlist"@));
    assert(all_known(media_commands(b, a, d.has_favorites, d.has_playlists)));
    let t = commands_of(d);
    if d.is_timer {
        assert(command_keys().contains(t[i].0));
    } else if d.is_scene {
        assert(command_keys().contains(t[i].0));
    }
    assert(command_keys().contains(t[i].0));
    law_detect_command_roundtrip(t[i].0, a);
}

} // verus!
