//! The compositor side of the daemon: the typed events of the compositor's
//! event stream, the parser for its `name>>data` lines, and the decisions
//! of the long-lived listener that reads that stream.

use vstd::prelude::*;
use vstd::string::StringSliceAdditionalSpecFns;
use crate::bytes::{seg_len, lemma_seg_len_is, copy_range, eq_bytes};
use crate::digits::{parse_i32_spec, parse_i32};

verus! {

/// Compositor event types.
#[derive(Clone, Debug)]
pub enum HyprlandEvent {
    WorkspaceChanged { id: i32, name: Vec<u8> },
    ActiveWindowChanged { class: Vec<u8>, title: Vec<u8> },
    MonitorFocused { name: Vec<u8> },
    FullscreenChanged { fullscreen: bool },
}

/// The mathematical shape of a compositor event.
pub enum EventV {
    WorkspaceChanged { id: i32, name: Seq<u8> },
    ActiveWindowChanged { class: Seq<u8>, title: Seq<u8> },
    MonitorFocused { name: Seq<u8> },
    FullscreenChanged { fullscreen: bool },
}

impl View for HyprlandEvent {
    type V = EventV;

    open spec fn view(&self) -> EventV {
        match *self {
            HyprlandEvent::WorkspaceChanged { id, ref name } => (EventV::WorkspaceChanged {
                id,
                name: name@,
            }),
            HyprlandEvent::ActiveWindowChanged { ref class, ref title } => (
            EventV::ActiveWindowChanged { class: class@, title: title@ }),
            HyprlandEvent::MonitorFocused { ref name } => (EventV::MonitorFocused { name: name@ }),
            HyprlandEvent::FullscreenChanged { fullscreen } => (EventV::FullscreenChanged {
                fullscreen,
            }),
        }
    }
}

/// Workspace info, as the compositor reports it.
#[derive(Clone, Debug)]
pub struct Workspace {
    pub id: i32,
    pub name: Vec<u8>,
    pub monitor: Vec<u8>,
    pub windows: u32,
    pub has_fullscreen: bool,
    pub last_window: Vec<u8>,
    pub last_window_title: Vec<u8>,
}

/// The mathematical shape of a workspace record.
pub struct WorkspaceV {
    pub id: i32,
    pub name: Seq<u8>,
    pub monitor: Seq<u8>,
    pub windows: u32,
    pub has_fullscreen: bool,
    pub last_window: Seq<u8>,
    pub last_window_title: Seq<u8>,
}

impl View for Workspace {
    type V = WorkspaceV;

    open spec fn view(&self) -> WorkspaceV {
        WorkspaceV {
            id: self.id,
            name: self.name@,
            monitor: self.monitor@,
            windows: self.windows,
            has_fullscreen: self.has_fullscreen,
            last_window: self.last_window@,
            last_window_title: self.last_window_title@,
        }
    }
}

impl DeepView for Workspace {
    type V = WorkspaceV;

    open spec fn deep_view(&self) -> WorkspaceV {
        self@
    }
}

/// Active window info, as the compositor reports it.
#[derive(Clone, Debug)]
pub struct ActiveWindow {
    pub class: Vec<u8>,
    pub title: Vec<u8>,
    pub address: Vec<u8>,
    pub mapped: bool,
    pub floating: bool,
    pub fullscreen: i32,
}

/// Position of the first `>>` in `s`, or -1 when there is none.
pub open spec fn delim_pos(s: Seq<u8>) -> int
    decreases s.len(),
{
    if s.len() < 2 {
        -1
    } else if s[0] == 62 && s[1] == 62 {
        0
    } else if delim_pos(s.skip(1)) < 0 {
        -1
    } else {
        1 + delim_pos(s.skip(1))
    }
}

proof fn lemma_delim_pos_found(s: Seq<u8>, i: int)
    requires
        0 <= i,
        i + 2 <= s.len(),
        s[i] == 62 && s[i + 1] == 62,
        forall|k: int| 0 <= k < i ==> !(#[trigger] s[k] == 62 && s[k + 1] == 62),
    ensures
        delim_pos(s) == i,
    decreases i,
{
    if i == 0 {
    } else {
        assert forall|k: int| 0 <= k < i - 1 implies !(#[trigger] s.skip(1)[k] == 62 && s.skip(
            1,
        )[k + 1] == 62) by {
            assert(!(s[k + 1] == 62 && s[k + 2] == 62));
        }
        assert(s.skip(1)[i - 1] == 62 && s.skip(1)[i] == 62);
        lemma_delim_pos_found(s.skip(1), i - 1);
    }
}

proof fn lemma_delim_pos_none(s: Seq<u8>)
    requires
        forall|k: int| 0 <= k && k + 2 <= s.len() ==> !(#[trigger] s[k] == 62 && s[k + 1] == 62),
    ensures
        delim_pos(s) == -1,
    decreases s.len(),
{
    if s.len() < 2 {
    } else {
        assert(!(s[0] == 62 && s[1] == 62));
        assert forall|k: int| 0 <= k && k + 2 <= s.skip(1).len() implies !(#[trigger] s.skip(
            1,
        )[k] == 62 && s.skip(1)[k + 1] == 62) by {
            assert(!(s[k + 1] == 62 && s[k + 2] == 62));
        }
        lemma_delim_pos_none(s.skip(1));
    }
}

/// What one event-stream line means. The line is `name>>data`; a line
/// without the delimiter, with an unknown name, or with a payload the
/// named event cannot carry, means nothing and is dropped.
pub open spec fn parse_event_spec(line: Seq<u8>) -> Option<EventV> {
    let p = delim_pos(line);
    if p < 0 {
        None
    } else {
        let name = line.take(p);
        let data = line.skip(p + 2);
        if name == "workspace".spec_bytes() {
            match parse_i32_spec(data) {
                Some(id) => Some(EventV::WorkspaceChanged { id, name: data }),
                None => None,
            }
        } else if name == "activewindow".spec_bytes() {
            let c = seg_len(data, 44);
            if c == data.len() {
                None
            } else {
                Some(
                    EventV::ActiveWindowChanged {
                        class: data.take(c),
                        title: data.skip(c + 1),
                    },
                )
            }
        } else if name == "monitoradded".spec_bytes() || name == "focusedmon".spec_bytes() {
            Some(EventV::MonitorFocused { name: data })
        } else if name == "fullscreen".spec_bytes() {
            Some(EventV::FullscreenChanged { fullscreen: data == "1".spec_bytes() })
        } else {
            None
        }
    }
}

/// Parse one line of the compositor's event stream.
pub fn parse_event(line: &[u8]) -> (r: Option<HyprlandEvent>)
    ensures
        match r {
            Some(e) => parse_event_spec(line@) == Some(e@),
            None => parse_event_spec(line@) is None,
        },
{
    let n: usize = line.len();
    let mut i: usize = 0;
    loop
        invariant_except_break
            n == line@.len(),
            0 <= i,
            i + 2 <= n + 2,
            forall|k: int| 0 <= k < i ==> !(#[trigger] line@[k] == 62 && line@[k + 1] == 62),
        ensures
            n == line@.len(),
            i + 2 <= n,
            line@[i as int] == 62 && line@[i + 1] == 62,
            forall|k: int| 0 <= k < i ==> !(#[trigger] line@[k] == 62 && line@[k + 1] == 62),
        decreases n - i,
    {
        if n < 2 || i > n - 2 {
            proof {
                lemma_delim_pos_none(line@);
            }
            return None;
        }
        if line[i] == 62 && line[i + 1] == 62 {
            break;
        }
        i = i + 1;
    }
    proof {
        lemma_delim_pos_found(line@, i as int);
    }
    let name: &[u8] = &line[0..i];
    let data: &[u8] = &line[i + 2..n];
    proof {
        assert(name@ =~= line@.take(i as int));
        assert(data@ =~= line@.skip(i + 2));
    }
    if eq_bytes(name, "workspace".as_bytes()) {
        match parse_i32(data) {
            Some(id) => {
                let nm = copy_range(data, 0, data.len());
                proof {
                    assert(nm@ =~= data@);
                }
                Some(HyprlandEvent::WorkspaceChanged { id, name: nm })
            },
            None => None,
        }
    } else if eq_bytes(name, "activewindow".as_bytes()) {
        let m: usize = data.len();
        let mut c: usize = 0;
        while c < m && data[c] != 44
            invariant
                m == data@.len(),
                0 <= c <= m,
                forall|k: int| 0 <= k < c ==> data@[k] != 44,
            decreases m - c,
        {
            c = c + 1;
        }
        proof {
            lemma_seg_len_is(data@, 44, c as int);
        }
        if c == m {
            None
        } else {
            let cl = copy_range(data, 0, c);
            let ti = copy_range(data, c + 1, m);
            proof {
                assert(cl@ =~= data@.take(c as int));
                assert(ti@ =~= data@.skip(c + 1));
            }
            Some(HyprlandEvent::ActiveWindowChanged { class: cl, title: ti })
        }
    } else if eq_bytes(name, "monitoradded".as_bytes()) || eq_bytes(name, "focusedmon".as_bytes()) {
        let nm = copy_range(data, 0, data.len());
        proof {
            assert(nm@ =~= data@);
        }
        Some(HyprlandEvent::MonitorFocused { name: nm })
    } else if eq_bytes(name, "fullscreen".as_bytes()) {
        Some(HyprlandEvent::FullscreenChanged { fullscreen: eq_bytes(data, "1".as_bytes()) })
    } else {
        None
    }
}

/// How long the listener waits before reconnecting, in seconds.
pub const RECONNECT_DELAY_SECS: u64 = 2;

/// What the event-stream connection just produced.
pub enum SocketEvent {
    Connected,
    Line(Vec<u8>),
    StreamEnded,
    ConnectFailed,
}

/// What the listener does next.
pub enum ListenerAction {
    AwaitLine,
    Emit(HyprlandEvent),
    Backoff(u64),
}

/// One decision of the event listener. A connection keeps being read; a
/// meaningful line becomes an event; a malformed line is dropped; any end
/// or failure of the connection means one fixed backoff and a new attempt,
/// never giving up.
pub fn listener_step(ev: SocketEvent) -> (a: ListenerAction)
    ensures
        match ev {
            SocketEvent::Connected => a is AwaitLine,
            SocketEvent::Line(l) => match parse_event_spec(l@) {
                Some(e) => a matches ListenerAction::Emit(x) && x@ == e,
                None => a is AwaitLine,
            },
            SocketEvent::StreamEnded => a == ListenerAction::Backoff(RECONNECT_DELAY_SECS),
            SocketEvent::ConnectFailed => a == ListenerAction::Backoff(RECONNECT_DELAY_SECS),
        },
{
    match ev {
        SocketEvent::Connected => ListenerAction::AwaitLine,
        SocketEvent::Line(l) => match parse_event(l.as_slice()) {
            Some(e) => ListenerAction::Emit(e),
            None => ListenerAction::AwaitLine,
        },
        SocketEvent::StreamEnded => ListenerAction::Backoff(RECONNECT_DELAY_SECS),
        SocketEvent::ConnectFailed => ListenerAction::Backoff(RECONNECT_DELAY_SECS),
    }
}

/// The command line sent to the compositor for a dispatch request.
pub open spec fn dispatch_cmd_spec(command: Seq<u8>, args: Seq<u8>) -> Seq<u8> {
    "dispatch ".spec_bytes() + command + " ".spec_bytes() + args
}

/// Build the compositor command for `dispatch <command> <args>`.
pub fn build_dispatch_cmd(command: &[u8], args: &[u8]) -> (r: Vec<u8>)
    ensures
        r@ == dispatch_cmd_spec(command@, args@),
{
    let mut out: Vec<u8> = Vec::new();
    out.extend_from_slice("dispatch ".as_bytes());
    out.extend_from_slice(command);
    out.extend_from_slice(" ".as_bytes());
    out.extend_from_slice(args);
    proof {
        assert(out@ =~= dispatch_cmd_spec(command@, args@));
    }
    out
}

} // verus!

verus! {

/// A line without the `>>` delimiter never yields an event, whatever
/// else it holds.
pub proof fn lemma_no_delim_no_event(line: Seq<u8>)
    requires
        forall|k: int|
            0 <= k && k + 2 <= line.len() ==> !(#[trigger] line[k] == 62 && line[k + 1] == 62),
    ensures
        parse_event_spec(line) is None,
{
    lemma_delim_pos_none(line);
}

} // verus!
