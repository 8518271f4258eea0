//! The request/response protocol: one whitespace-tokenized request line in,
//! one JSON reply line out. The router reads or updates the shared state
//! snapshot and names the adapter call, if any, that the caller still owes.

use vstd::prelude::*;
use vstd::string::StringSliceAdditionalSpecFns;
use crate::bytes::{tokens, tokenize, eq_bytes, copy_range};
use crate::digits::{dec_rep, int_rep, parse_u8_spec, parse_u8};
use crate::json::{
    json_quoted, bool_rep, opt_str_rep, push_lit, push_quoted, push_bool, push_opt_quoted, push_u8,
    push_u32, push_i32,
};
use crate::state::{AppState, StateV, with_volume, with_muted, with_battery, with_audio};
use crate::hyprland::{Workspace, WorkspaceV};

verus! {

/// Reply to every mutating command, whatever the adapter later does.
pub open spec fn ok_reply_spec() -> Seq<u8> {
    "{\"ok\": true}".spec_bytes()
}

/// Reply to an empty request line.
pub open spec fn empty_error_spec() -> Seq<u8> {
    "{\"error\": \"empty command\"}".spec_bytes()
}

/// Reply to a request whose first token is no known command.
pub open spec fn unknown_error_spec() -> Seq<u8> {
    "{\"error\": \"unknown command\"}".spec_bytes()
}

#[verifier::opaque]
pub open spec fn battery_reply_spec(st: StateV) -> Seq<u8> {
    "{\"type\":\"battery\",\"level\":".spec_bytes() + dec_rep(st.battery_level as nat)
        + ",\"charging\":".spec_bytes() + bool_rep(st.battery_charging) + "}".spec_bytes()
}

#[verifier::opaque]
pub open spec fn audio_reply_spec(st: StateV) -> Seq<u8> {
    "{\"type\":\"audio\",\"volume\":".spec_bytes() + dec_rep(st.volume as nat)
        + ",\"muted\":".spec_bytes() + bool_rep(st.volume_muted) + "}".spec_bytes()
}

#[verifier::opaque]
pub open spec fn window_reply_spec(st: StateV) -> Seq<u8> {
    "{\"type\":\"window\",\"title\":".spec_bytes() + json_quoted(st.active_window_title)
        + ",\"class\":".spec_bytes() + json_quoted(st.active_window_class) + "}".spec_bytes()
}

#[verifier::opaque]
pub open spec fn media_reply_spec(st: StateV) -> Seq<u8> {
    "{\"type\":\"media\",\"title\":".spec_bytes() + json_quoted(st.media_title)
        + ",\"artist\":".spec_bytes() + json_quoted(st.media_artist) + ",\"playing\":".spec_bytes()
        + bool_rep(st.media_playing) + "}".spec_bytes()
}

#[verifier::opaque]
pub open spec fn network_reply_spec(st: StateV) -> Seq<u8> {
    "{\"type\":\"network\",\"connected\":".spec_bytes() + bool_rep(st.wifi_connected)
        + ",\"ssid\":".spec_bytes() + opt_str_rep(st.wifi_ssid) + "}".spec_bytes()
}

/// The full snapshot, one nested object per subsystem.
#[verifier::opaque]
pub open spec fn state_reply_spec(st: StateV) -> Seq<u8> {
    "{\"type\":\"state\",\"workspace\":".spec_bytes() + int_rep(st.active_workspace as int)
        + ",\"window\":{\"title\":".spec_bytes() + json_quoted(st.active_window_title)
        + ",\"class\":".spec_bytes() + json_quoted(st.active_window_class)
        + "},\"battery\":{\"level\":".spec_bytes() + dec_rep(st.battery_level as nat)
        + ",\"charging\":".spec_bytes() + bool_rep(st.battery_charging)
        + "},\"audio\":{\"volume\":".spec_bytes() + dec_rep(st.volume as nat)
        + ",\"muted\":".spec_bytes() + bool_rep(st.volume_muted)
        + "},\"network\":{\"connected\":".spec_bytes() + bool_rep(st.wifi_connected)
        + ",\"ssid\":".spec_bytes() + opt_str_rep(st.wifi_ssid)
        + "},\"media\":{\"title\":".spec_bytes() + json_quoted(st.media_title)
        + ",\"artist\":".spec_bytes() + json_quoted(st.media_artist)
        + ",\"playing\":".spec_bytes() + bool_rep(st.media_playing) + "}}".spec_bytes()
}

/// One workspace record, fields in the order the compositor reports them.
#[verifier::opaque]
pub open spec fn workspace_rep(w: WorkspaceV) -> Seq<u8> {
    "{\"id\":".spec_bytes() + int_rep(w.id as int) + ",\"name\":".spec_bytes() + json_quoted(
        w.name,
    ) + ",\"monitor\":".spec_bytes() + json_quoted(w.monitor) + ",\"windows\":".spec_bytes()
        + dec_rep(w.windows as nat) + ",\"hasfullscreen\":".spec_bytes() + bool_rep(
        w.has_fullscreen,
    ) + ",\"lastwindow\":".spec_bytes() + json_quoted(w.last_window)
        + ",\"lastwindowtitle\":".spec_bytes() + json_quoted(w.last_window_title)
        + "}".spec_bytes()
}

/// The comma-separated workspace records.
pub open spec fn workspace_items(ws: Seq<WorkspaceV>) -> Seq<u8>
    decreases ws.len(),
{
    if ws.len() == 0 {
        Seq::empty()
    } else {
        workspace_items(ws.drop_last()) + (if ws.len() > 1 {
            ",".spec_bytes()
        } else {
            Seq::<u8>::empty()
        }) + workspace_rep(ws.last())
    }
}

/// The workspaces reply: the active id from the snapshot and the live list.
pub open spec fn workspaces_reply_spec(active: i32, ws: Seq<WorkspaceV>) -> Seq<u8> {
    "{\"type\":\"workspaces\",\"active\":".spec_bytes() + int_rep(active as int)
        + ",\"list\":[".spec_bytes() + workspace_items(ws) + "]}".spec_bytes()
}

/// The reply every mutating command gets.
pub fn ok_reply() -> (r: Vec<u8>)
    ensures
        r@ == ok_reply_spec(),
{
    let mut out: Vec<u8> = Vec::new();
    push_lit(&mut out, "{\"ok\": true}");
    proof {
        assert(out@ =~= ok_reply_spec());
    }
    out
}

/// The reply to an empty request line.
pub fn error_reply_empty() -> (r: Vec<u8>)
    ensures
        r@ == empty_error_spec(),
{
    let mut out: Vec<u8> = Vec::new();
    push_lit(&mut out, "{\"error\": \"empty command\"}");
    proof {
        assert(out@ =~= empty_error_spec());
    }
    out
}

/// The reply to an unrecognized command.
pub fn error_reply_unknown() -> (r: Vec<u8>)
    ensures
        r@ == unknown_error_spec(),
{
    let mut out: Vec<u8> = Vec::new();
    push_lit(&mut out, "{\"error\": \"unknown command\"}");
    proof {
        assert(out@ =~= unknown_error_spec());
    }
    out
}

pub fn battery_reply(st: &AppState) -> (r: Vec<u8>)
    ensures
        r@ == battery_reply_spec(st@),
{
    let mut out: Vec<u8> = Vec::new();
    push_lit(&mut out, "{\"type\":\"battery\",\"level\":");
    push_u8(&mut out, st.battery_level);
    push_lit(&mut out, ",\"charging\":");
    push_bool(&mut out, st.battery_charging);
    push_lit(&mut out, "}");
    proof {
        reveal(battery_reply_spec);
        assert(out@ =~= battery_reply_spec(st@));
    }
    out
}

pub fn audio_reply(st: &AppState) -> (r: Vec<u8>)
    ensures
        r@ == audio_reply_spec(st@),
{
    let mut out: Vec<u8> = Vec::new();
    push_lit(&mut out, "{\"type\":\"audio\",\"volume\":");
    push_u8(&mut out, st.volume);
    push_lit(&mut out, ",\"muted\":");
    push_bool(&mut out, st.volume_muted);
    push_lit(&mut out, "}");
    proof {
        reveal(audio_reply_spec);
        assert(out@ =~= audio_reply_spec(st@));
    }
    out
}

pub fn window_reply(st: &AppState) -> (r: Vec<u8>)
    ensures
        r@ == window_reply_spec(st@),
{
    let mut out: Vec<u8> = Vec::new();
    push_lit(&mut out, "{\"type\":\"window\",\"title\":");
    push_quoted(&mut out, st.active_window_title.as_slice());
    push_lit(&mut out, ",\"class\":");
    push_quoted(&mut out, st.active_window_class.as_slice());
    push_lit(&mut out, "}");
    proof {
        reveal(window_reply_spec);
        assert(out@ =~= window_reply_spec(st@));
    }
    out
}

pub fn media_reply(st: &AppState) -> (r: Vec<u8>)
    ensures
        r@ == media_reply_spec(st@),
{
    let mut out: Vec<u8> = Vec::new();
    push_lit(&mut out, "{\"type\":\"media\",\"title\":");
    push_quoted(&mut out, st.media_title.as_slice());
    push_lit(&mut out, ",\"artist\":");
    push_quoted(&mut out, st.media_artist.as_slice());
    push_lit(&mut out, ",\"playing\":");
    push_bool(&mut out, st.media_playing);
    push_lit(&mut out, "}");
    proof {
        reveal(media_reply_spec);
        assert(out@ =~= media_reply_spec(st@));
    }
    out
}

pub fn network_reply(st: &AppState) -> (r: Vec<u8>)
    ensures
        r@ == network_reply_spec(st@),
{
    let mut out: Vec<u8> = Vec::new();
    push_lit(&mut out, "{\"type\":\"network\",\"connected\":");
    push_bool(&mut out, st.wifi_connected);
    push_lit(&mut out, ",\"ssid\":");
    push_opt_quoted(&mut out, &st.wifi_ssid);
    push_lit(&mut out, "}");
    proof {
        reveal(network_reply_spec);
        assert(out@ =~= network_reply_spec(st@));
    }
    out
}

pub fn state_reply(st: &AppState) -> (r: Vec<u8>)
    ensures
        r@ == state_reply_spec(st@),
{
    let mut out: Vec<u8> = Vec::new();
    push_lit(&mut out, "{\"type\":\"state\",\"workspace\":");
    push_i32(&mut out, st.active_workspace);
    push_lit(&mut out, ",\"window\":{\"title\":");
    push_quoted(&mut out, st.active_window_title.as_slice());
    push_lit(&mut out, ",\"class\":");
    push_quoted(&mut out, st.active_window_class.as_slice());
    push_lit(&mut out, "},\"battery\":{\"level\":");
    push_u8(&mut out, st.battery_level);
    push_lit(&mut out, ",\"charging\":");
    push_bool(&mut out, st.battery_charging);
    push_lit(&mut out, "},\"audio\":{\"volume\":");
    push_u8(&mut out, st.volume);
    push_lit(&mut out, ",\"muted\":");
    push_bool(&mut out, st.volume_muted);
    push_lit(&mut out, "},\"network\":{\"connected\":");
    push_bool(&mut out, st.wifi_connected);
    push_lit(&mut out, ",\"ssid\":");
    push_opt_quoted(&mut out, &st.wifi_ssid);
    push_lit(&mut out, "},\"media\":{\"title\":");
    push_quoted(&mut out, st.media_title.as_slice());
    push_lit(&mut out, ",\"artist\":");
    push_quoted(&mut out, st.media_artist.as_slice());
    push_lit(&mut out, ",\"playing\":");
    push_bool(&mut out, st.media_playing);
    push_lit(&mut out, "}}");
    proof {
        reveal(state_reply_spec);
        assert(out@ =~= state_reply_spec(st@));
    }
    out
}

/// One workspace record of the reply list.
fn push_workspace(out: &mut Vec<u8>, w: &Workspace)
    ensures
        final(out)@ == old(out)@ + workspace_rep(w@),
{
    push_lit(out, "{\"id\":");
    push_i32(out, w.id);
    push_lit(out, ",\"name\":");
    push_quoted(out, w.name.as_slice());
    push_lit(out, ",\"monitor\":");
    push_quoted(out, w.monitor.as_slice());
    push_lit(out, ",\"windows\":");
    push_u32(out, w.windows);
    push_lit(out, ",\"hasfullscreen\":");
    push_bool(out, w.has_fullscreen);
    push_lit(out, ",\"lastwindow\":");
    push_quoted(out, w.last_window.as_slice());
    push_lit(out, ",\"lastwindowtitle\":");
    push_quoted(out, w.last_window_title.as_slice());
    push_lit(out, "}");
    proof {
        reveal(workspace_rep);
        assert(final(out)@ =~= old(out)@ + workspace_rep(w@));
    }
}

/// The reply to `workspace`/`workspaces`: the active id the snapshot held
/// and the list the compositor returned for this one request.
pub fn workspaces_reply(active: i32, list: &Vec<Workspace>) -> (r: Vec<u8>)
    ensures
        r@ == workspaces_reply_spec(active, list.deep_view()),
{
    let mut out: Vec<u8> = Vec::new();
    push_lit(&mut out, "{\"type\":\"workspaces\",\"active\":");
    push_i32(&mut out, active);
    push_lit(&mut out, ",\"list\":[");
    let ghost ws = list.deep_view();
    let ghost head = out@;
    let n: usize = list.len();
    let mut i: usize = 0;
    proof {
        assert(ws.take(0) =~= Seq::<WorkspaceV>::empty());
        assert(out@ =~= head + workspace_items(ws.take(0)));
    }
    while i < n
        invariant
            n == list@.len(),
            ws == list.deep_view(),
            0 <= i <= n,
            out@ == head + workspace_items(ws.take(i as int)),
        decreases n - i,
    {
        if i > 0 {
            push_lit(&mut out, ",");
        }
        push_workspace(&mut out, &list[i]);
        proof {
            assert(ws.take(i + 1).drop_last() =~= ws.take(i as int));
            assert(ws.take(i + 1).last() == list@[i as int]@);
            if i > 0 {
                assert(out@ =~= head + workspace_items(ws.take(i + 1)));
            } else {
                assert(out@ =~= head + workspace_items(ws.take(i + 1)));
            }
        }
        i = i + 1;
    }
    push_lit(&mut out, "]}");
    proof {
        assert(ws.take(n as int) =~= ws);
        assert(out@ =~= workspaces_reply_spec(active, ws));
    }
    out
}

} // verus!

verus! {

/// An adapter call a routed command still owes; the router itself never
/// performs one and never waits on its outcome.
pub enum Action {
    SetVolume(u8),
    ToggleMute,
    SetBrightness(u8),
    MediaPlayPause,
    MediaNext,
    MediaPrev,
    Dispatch { command: Vec<u8>, args: Vec<u8> },
}

/// The mathematical shape of an adapter call.
pub enum ActionV {
    SetVolume(u8),
    ToggleMute,
    SetBrightness(u8),
    MediaPlayPause,
    MediaNext,
    MediaPrev,
    Dispatch { command: Seq<u8>, args: Seq<u8> },
}

impl View for Action {
    type V = ActionV;

    open spec fn view(&self) -> ActionV {
        match *self {
            Action::SetVolume(v) => ActionV::SetVolume(v),
            Action::ToggleMute => ActionV::ToggleMute,
            Action::SetBrightness(v) => ActionV::SetBrightness(v),
            Action::MediaPlayPause => ActionV::MediaPlayPause,
            Action::MediaNext => ActionV::MediaNext,
            Action::MediaPrev => ActionV::MediaPrev,
            Action::Dispatch { ref command, ref args } => (ActionV::Dispatch {
                command: command@,
                args: args@,
            }),
        }
    }
}

/// What the router decided for one request line.
pub enum Routed {
    /// The reply is complete; nothing else to do.
    Reply(Vec<u8>),
    /// Fire the adapter call, then send the reply; the reply does not
    /// depend on how the call goes.
    Command { action: Action, reply: Vec<u8> },
    /// Fetch the live workspace list, then build the reply with
    /// `workspaces_reply` and this active id.
    WorkspaceQuery { active: i32 },
}

/// The mathematical shape of a routing decision.
pub enum RouteV {
    Reply(Seq<u8>),
    Command { action: ActionV, reply: Seq<u8> },
    WorkspaceQuery { active: i32 },
}

impl View for Routed {
    type V = RouteV;

    open spec fn view(&self) -> RouteV {
        match *self {
            Routed::Reply(ref r) => RouteV::Reply(r@),
            Routed::Command { ref action, ref reply } => (RouteV::Command {
                action: action@,
                reply: reply@,
            }),
            Routed::WorkspaceQuery { active } => RouteV::WorkspaceQuery { active },
        }
    }
}

/// What the router decides on `line` seen against the snapshot `st`:
/// queries answer from the snapshot; mutating commands name an adapter
/// call and reply ok whatever comes of it; a `volume` or `brightness`
/// argument that does not parse as `u8` makes the command a no-op that
/// still replies ok, and so does a `dispatch` with fewer than two
/// arguments; anything else is an unknown command.
pub open spec fn route_spec(line: Seq<u8>, st: StateV) -> RouteV {
    let ts = tokens(line);
    if ts.len() == 0 {
        RouteV::Reply(empty_error_spec())
    } else {
        let cmd = ts[0];
        if cmd == "state".spec_bytes() || cmd == "all".spec_bytes() {
            RouteV::Reply(state_reply_spec(st))
        } else if cmd == "battery".spec_bytes() {
            RouteV::Reply(battery_reply_spec(st))
        } else if cmd == "audio".spec_bytes() {
            RouteV::Reply(audio_reply_spec(st))
        } else if cmd == "workspace".spec_bytes() || cmd == "workspaces".spec_bytes() {
            RouteV::WorkspaceQuery { active: st.active_workspace }
        } else if cmd == "window".spec_bytes() {
            RouteV::Reply(window_reply_spec(st))
        } else if cmd == "media".spec_bytes() {
            RouteV::Reply(media_reply_spec(st))
        } else if cmd == "network".spec_bytes() {
            RouteV::Reply(network_reply_spec(st))
        } else if cmd == "volume".spec_bytes() {
            if ts.len() >= 2 && parse_u8_spec(ts[1]) is Some {
                RouteV::Command {
                    action: ActionV::SetVolume(parse_u8_spec(ts[1])->Some_0),
                    reply: ok_reply_spec(),
                }
            } else {
                RouteV::Reply(ok_reply_spec())
            }
        } else if cmd == "mute".spec_bytes() {
            RouteV::Command { action: ActionV::ToggleMute, reply: ok_reply_spec() }
        } else if cmd == "brightness".spec_bytes() {
            if ts.len() >= 2 && parse_u8_spec(ts[1]) is Some {
                RouteV::Command {
                    action: ActionV::SetBrightness(parse_u8_spec(ts[1])->Some_0),
                    reply: ok_reply_spec(),
                }
            } else {
                RouteV::Reply(ok_reply_spec())
            }
        } else if cmd == "media-toggle".spec_bytes() || cmd == "play-pause".spec_bytes() {
            RouteV::Command { action: ActionV::MediaPlayPause, reply: ok_reply_spec() }
        } else if cmd == "media-next".spec_bytes() || cmd == "next".spec_bytes() {
            RouteV::Command { action: ActionV::MediaNext, reply: ok_reply_spec() }
        } else if cmd == "media-prev".spec_bytes() || cmd == "prev".spec_bytes() {
            RouteV::Command { action: ActionV::MediaPrev, reply: ok_reply_spec() }
        } else if cmd == "dispatch".spec_bytes() {
            if ts.len() >= 3 {
                RouteV::Command {
                    action: ActionV::Dispatch { command: ts[1], args: ts[2] },
                    reply: ok_reply_spec(),
                }
            } else {
                RouteV::Reply(ok_reply_spec())
            }
        } else {
            RouteV::Reply(unknown_error_spec())
        }
    }
}

/// How the snapshot moves when the router handles `line`: a routed
/// `volume` command stores the requested volume, a routed `mute` command
/// flips the mute flag, and nothing else changes anything.
pub open spec fn route_state_spec(line: Seq<u8>, st: StateV) -> StateV {
    match route_spec(line, st) {
        RouteV::Command { action: ActionV::SetVolume(v), .. } => with_volume(st, v),
        RouteV::Command { action: ActionV::ToggleMute, .. } => with_muted(st, !st.volume_muted),
        _ => st,
    }
}

/// Route one trimmed request line against the current snapshot.
#[verifier::rlimit(100)]
pub fn handle_message(line: &[u8], state: &mut AppState) -> (r: Routed)
    ensures
        r@ == route_spec(line@, old(state)@),
        final(state)@ == route_state_spec(line@, old(state)@),
{
    let toks = tokenize(line);
    let ghost ts = tokens(line@);
    proof {
        assert(toks.deep_view().len() == toks@.len());
    }
    if toks.len() == 0 {
        return Routed::Reply(error_reply_empty());
    }
    proof {
        assert(ts[0] == toks@[0].deep_view());
        assert(toks@[0].deep_view() =~= toks@[0]@);
    }
    let cmd: &Vec<u8> = &toks[0];
    let c = cmd.as_slice();
    if eq_bytes(c, "state".as_bytes()) || eq_bytes(c, "all".as_bytes()) {
        Routed::Reply(state_reply(state))
    } else if eq_bytes(c, "battery".as_bytes()) {
        Routed::Reply(battery_reply(state))
    } else if eq_bytes(c, "audio".as_bytes()) {
        Routed::Reply(audio_reply(state))
    } else if eq_bytes(c, "workspace".as_bytes()) || eq_bytes(c, "workspaces".as_bytes()) {
        Routed::WorkspaceQuery { active: state.active_workspace }
    } else if eq_bytes(c, "window".as_bytes()) {
        Routed::Reply(window_reply(state))
    } else if eq_bytes(c, "media".as_bytes()) {
        Routed::Reply(media_reply(state))
    } else if eq_bytes(c, "network".as_bytes()) {
        Routed::Reply(network_reply(state))
    } else if eq_bytes(c, "volume".as_bytes()) {
        if toks.len() >= 2 {
            proof {
                assert(ts[1] == toks@[1].deep_view());
                assert(toks@[1].deep_view() =~= toks@[1]@);
            }
            match parse_u8(toks[1].as_slice()) {
                Some(level) => {
                    state.volume = level;
                    proof {
                        assert(state@ =~= with_volume(old(state)@, level));
                    }
                    Routed::Command { action: Action::SetVolume(level), reply: ok_reply() }
                },
                None => Routed::Reply(ok_reply()),
            }
        } else {
            Routed::Reply(ok_reply())
        }
    } else if eq_bytes(c, "mute".as_bytes()) {
        let flipped = !state.volume_muted;
        state.volume_muted = flipped;
        proof {
            assert(state@ =~= with_muted(old(state)@, !old(state)@.volume_muted));
        }
        Routed::Command { action: Action::ToggleMute, reply: ok_reply() }
    } else if eq_bytes(c, "brightness".as_bytes()) {
        if toks.len() >= 2 {
            proof {
                assert(ts[1] == toks@[1].deep_view());
                assert(toks@[1].deep_view() =~= toks@[1]@);
            }
            match parse_u8(toks[1].as_slice()) {
                Some(level) => Routed::Command {
                    action: Action::SetBrightness(level),
                    reply: ok_reply(),
                },
                None => Routed::Reply(ok_reply()),
            }
        } else {
            Routed::Reply(ok_reply())
        }
    } else if eq_bytes(c, "media-toggle".as_bytes()) || eq_bytes(c, "play-pause".as_bytes()) {
        Routed::Command { action: Action::MediaPlayPause, reply: ok_reply() }
    } else if eq_bytes(c, "media-next".as_bytes()) || eq_bytes(c, "next".as_bytes()) {
        Routed::Command { action: Action::MediaNext, reply: ok_reply() }
    } else if eq_bytes(c, "media-prev".as_bytes()) || eq_bytes(c, "prev".as_bytes()) {
        Routed::Command { action: Action::MediaPrev, reply: ok_reply() }
    } else if eq_bytes(c, "dispatch".as_bytes()) {
        if toks.len() >= 3 {
            proof {
                assert(ts[1] == toks@[1].deep_view());
                assert(toks@[1].deep_view() =~= toks@[1]@);
                assert(ts[2] == toks@[2].deep_view());
                assert(toks@[2].deep_view() =~= toks@[2]@);
            }
            let dc = copy_range(toks[1].as_slice(), 0, toks[1].len());
            let da = copy_range(toks[2].as_slice(), 0, toks[2].len());
            proof {
                assert(dc@ =~= ts[1]);
                assert(da@ =~= ts[2]);
            }
            Routed::Command { action: Action::Dispatch { command: dc, args: da }, reply: ok_reply() }
        } else {
            Routed::Reply(ok_reply())
        }
    } else {
        Routed::Reply(error_reply_unknown())
    }
}

} // verus!

verus! {

/// First bytes (and where needed second bytes) of the query command
/// literals, so that laws can tell the commands apart.
proof fn lemma_command_literal_bytes()
    ensures
        "state".spec_bytes().len() > 1 && "state".spec_bytes()[0] == 115,
        "all".spec_bytes().len() > 1 && "all".spec_bytes()[0] == 97 && "all".spec_bytes()[1]
            == 108,
        "battery".spec_bytes().len() > 1 && "battery".spec_bytes()[0] == 98,
        "audio".spec_bytes().len() > 1 && "audio".spec_bytes()[0] == 97 && "audio".spec_bytes()[1]
            == 117,
        "workspace".spec_bytes().len() > 1 && "workspace".spec_bytes()[0] == 119
            && "workspace".spec_bytes()[1] == 111,
        "workspaces".spec_bytes().len() > 1 && "workspaces".spec_bytes()[0] == 119
            && "workspaces".spec_bytes()[1] == 111,
        "window".spec_bytes().len() > 1 && "window".spec_bytes()[0] == 119
            && "window".spec_bytes()[1] == 105,
        "media".spec_bytes().len() > 1 && "media".spec_bytes()[0] == 109,
        "network".spec_bytes().len() > 1 && "network".spec_bytes()[0] == 110,
        "volume".spec_bytes().len() > 1 && "volume".spec_bytes()[0] == 118,
{
    reveal_strlit("state");
    vstd::string::is_ascii_spec_bytes("state");
    reveal_strlit("all");
    vstd::string::is_ascii_spec_bytes("all");
    reveal_strlit("battery");
    vstd::string::is_ascii_spec_bytes("battery");
    reveal_strlit("audio");
    vstd::string::is_ascii_spec_bytes("audio");
    reveal_strlit("workspace");
    vstd::string::is_ascii_spec_bytes("workspace");
    reveal_strlit("workspaces");
    vstd::string::is_ascii_spec_bytes("workspaces");
    reveal_strlit("window");
    vstd::string::is_ascii_spec_bytes("window");
    reveal_strlit("media");
    vstd::string::is_ascii_spec_bytes("media");
    reveal_strlit("network");
    vstd::string::is_ascii_spec_bytes("network");
    reveal_strlit("volume");
    vstd::string::is_ascii_spec_bytes("volume");
}

/// An empty request line — one without a single token — is answered with
/// exactly the empty-command error, whatever the state holds.
pub proof fn lemma_empty_line_error(line: Seq<u8>, st: StateV)
    requires
        tokens(line).len() == 0,
    ensures
        route_spec(line, st) == RouteV::Reply(empty_error_spec()),
        route_state_spec(line, st) == st,
{
}

/// A request whose first token is none of the recognized commands is
/// answered with exactly the unknown-command error, whatever the state
/// holds, and changes nothing.
pub proof fn lemma_unknown_command_error(line: Seq<u8>, st: StateV)
    requires
        tokens(line).len() > 0,
        tokens(line)[0] != "state".spec_bytes(),
        tokens(line)[0] != "all".spec_bytes(),
        tokens(line)[0] != "battery".spec_bytes(),
        tokens(line)[0] != "audio".spec_bytes(),
        tokens(line)[0] != "workspace".spec_bytes(),
        tokens(line)[0] != "workspaces".spec_bytes(),
        tokens(line)[0] != "window".spec_bytes(),
        tokens(line)[0] != "media".spec_bytes(),
        tokens(line)[0] != "network".spec_bytes(),
        tokens(line)[0] != "volume".spec_bytes(),
        tokens(line)[0] != "mute".spec_bytes(),
        tokens(line)[0] != "brightness".spec_bytes(),
        tokens(line)[0] != "media-toggle".spec_bytes(),
        tokens(line)[0] != "play-pause".spec_bytes(),
        tokens(line)[0] != "media-next".spec_bytes(),
        tokens(line)[0] != "next".spec_bytes(),
        tokens(line)[0] != "media-prev".spec_bytes(),
        tokens(line)[0] != "prev".spec_bytes(),
        tokens(line)[0] != "dispatch".spec_bytes(),
    ensures
        route_spec(line, st) == RouteV::Reply(unknown_error_spec()),
        route_state_spec(line, st) == st,
{
}

/// A `volume N` request whose argument parses as `u8` is routed as a
/// volume command whose reply is fixed to the ok object before the adapter
/// is ever called: the reply cannot depend on the adapter's outcome.
pub proof fn lemma_volume_always_ok(line: Seq<u8>, st: StateV)
    requires
        tokens(line).len() >= 2,
        tokens(line)[0] == "volume".spec_bytes(),
        parse_u8_spec(tokens(line)[1]) is Some,
    ensures
        route_spec(line, st) == (RouteV::Command {
            action: ActionV::SetVolume(parse_u8_spec(tokens(line)[1])->Some_0),
            reply: ok_reply_spec(),
        }),
        route_state_spec(line, st) == with_volume(st, parse_u8_spec(tokens(line)[1])->Some_0),
{
    lemma_command_literal_bytes();
    let cmd = tokens(line)[0];
    assert(cmd[0] == 118);
    assert(cmd != "state".spec_bytes());
    assert(cmd != "all".spec_bytes());
    assert(cmd != "battery".spec_bytes());
    assert(cmd != "audio".spec_bytes());
    assert(cmd != "workspace".spec_bytes());
    assert(cmd != "workspaces".spec_bytes());
    assert(cmd != "window".spec_bytes());
    assert(cmd != "media".spec_bytes());
    assert(cmd != "network".spec_bytes());
}

/// A `battery` query against a snapshot that just took a battery
/// observation answers with exactly that observation's level and charging
/// flag.
pub proof fn lemma_battery_update_then_query(line: Seq<u8>, st: StateV, level: u8, charging: bool)
    requires
        tokens(line).len() > 0,
        tokens(line)[0] == "battery".spec_bytes(),
    ensures
        route_spec(line, with_battery(st, level, charging)) == RouteV::Reply(
            "{\"type\":\"battery\",\"level\":".spec_bytes() + dec_rep(level as nat)
                + ",\"charging\":".spec_bytes() + bool_rep(charging) + "}".spec_bytes(),
        ),
{
    lemma_command_literal_bytes();
    let cmd = tokens(line)[0];
    assert(cmd[0] == 98);
    assert(cmd != "state".spec_bytes());
    assert(cmd != "all".spec_bytes());
    reveal(battery_reply_spec);
}

/// An `audio` query against a snapshot that just took an audio observation
/// answers with exactly that observation's volume and mute flag.
pub proof fn lemma_audio_update_then_query(line: Seq<u8>, st: StateV, volume: u8, muted: bool)
    requires
        tokens(line).len() > 0,
        tokens(line)[0] == "audio".spec_bytes(),
    ensures
        route_spec(line, with_audio(st, volume, muted)) == RouteV::Reply(
            "{\"type\":\"audio\",\"volume\":".spec_bytes() + dec_rep(volume as nat)
                + ",\"muted\":".spec_bytes() + bool_rep(muted) + "}".spec_bytes(),
        ),
{
    lemma_command_literal_bytes();
    let cmd = tokens(line)[0];
    assert(cmd[0] == 97 && cmd[1] == 117);
    assert(cmd != "state".spec_bytes());
    assert(cmd != "all".spec_bytes());
    assert(cmd != "battery".spec_bytes());
    reveal(audio_reply_spec);
}

/// A `workspace` query against a snapshot that just folded in a
/// workspace-changed event reports exactly that event's id as active.
pub proof fn lemma_workspace_event_then_query(line: Seq<u8>, st: StateV, id: i32, name: Seq<u8>)
    requires
        tokens(line).len() > 0,
        tokens(line)[0] == "workspace".spec_bytes() || tokens(line)[0]
            == "workspaces".spec_bytes(),
    ensures
        route_spec(
            line,
            crate::state::after_event(st, crate::hyprland::EventV::WorkspaceChanged { id, name }),
        ) == (RouteV::WorkspaceQuery { active: id }),
{
    lemma_command_literal_bytes();
    let cmd = tokens(line)[0];
    assert(cmd[0] == 119);
    assert(cmd != "state".spec_bytes());
    assert(cmd != "all".spec_bytes());
    assert(cmd != "battery".spec_bytes());
    assert(cmd != "audio".spec_bytes());
}

/// A `window` query against a snapshot that just folded in an
/// active-window event answers with exactly that event's title and class.
pub proof fn lemma_window_event_then_query(line: Seq<u8>, st: StateV, class: Seq<u8>, title: Seq<
    u8,
>)
    requires
        tokens(line).len() > 0,
        tokens(line)[0] == "window".spec_bytes(),
    ensures
        route_spec(
            line,
            crate::state::after_event(
                st,
                crate::hyprland::EventV::ActiveWindowChanged { class, title },
            ),
        ) == RouteV::Reply(
            "{\"type\":\"window\",\"title\":".spec_bytes() + json_quoted(title)
                + ",\"class\":".spec_bytes() + json_quoted(class) + "}".spec_bytes(),
        ),
{
    lemma_command_literal_bytes();
    let cmd = tokens(line)[0];
    assert(cmd[0] == 119 && cmd[1] == 105);
    assert(cmd != "state".spec_bytes());
    assert(cmd != "all".spec_bytes());
    assert(cmd != "battery".spec_bytes());
    assert(cmd != "audio".spec_bytes());
    assert(cmd != "workspace".spec_bytes());
    assert(cmd != "workspaces".spec_bytes());
    reveal(window_reply_spec);
}

} // verus!

verus! {

/// Round trip through the router itself: an `audio` query issued right
/// after a routed `volume N` command reports exactly `N`, with the mute
/// flag untouched.
pub proof fn lemma_volume_then_audio_query(
    cmd_line: Seq<u8>,
    query_line: Seq<u8>,
    st: StateV,
    n: u8,
)
    requires
        tokens(cmd_line).len() >= 2,
        tokens(cmd_line)[0] == "volume".spec_bytes(),
        parse_u8_spec(tokens(cmd_line)[1]) == Some(n),
        tokens(query_line).len() > 0,
        tokens(query_line)[0] == "audio".spec_bytes(),
    ensures
        route_spec(query_line, route_state_spec(cmd_line, st)) == RouteV::Reply(
            "{\"type\":\"audio\",\"volume\":".spec_bytes() + dec_rep(n as nat)
                + ",\"muted\":".spec_bytes() + bool_rep(st.volume_muted) + "}".spec_bytes(),
        ),
{
    lemma_volume_always_ok(cmd_line, st);
    assert(route_state_spec(cmd_line, st) == with_volume(st, n));
    lemma_command_literal_bytes();
    let cmd = tokens(query_line)[0];
    assert(cmd[0] == 97 && cmd[1] == 117);
    assert(cmd != "state".spec_bytes());
    assert(cmd != "all".spec_bytes());
    assert(cmd != "battery".spec_bytes());
    reveal(audio_reply_spec);
}

} // verus!
