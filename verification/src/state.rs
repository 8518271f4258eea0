//! The shared state snapshot: one aggregate record of the last observed
//! value from each subsystem. Every update touches one subsystem's fields
//! as a unit and leaves the rest as they were.

use vstd::prelude::*;
use crate::hyprland::{HyprlandEvent, EventV};

verus! {

/// Shared state accessible by all handlers.
pub struct AppState {
    pub active_workspace: i32,
    pub active_window_title: Vec<u8>,
    pub active_window_class: Vec<u8>,
    pub battery_level: u8,
    pub battery_charging: bool,
    pub volume: u8,
    pub volume_muted: bool,
    pub brightness: u8,
    pub wifi_ssid: Option<Vec<u8>>,
    pub wifi_connected: bool,
    pub media_title: Vec<u8>,
    pub media_artist: Vec<u8>,
    pub media_playing: bool,
}

/// The mathematical shape of a state snapshot.
#[verifier::ext_equal]
pub struct StateV {
    pub active_workspace: i32,
    pub active_window_title: Seq<u8>,
    pub active_window_class: Seq<u8>,
    pub battery_level: u8,
    pub battery_charging: bool,
    pub volume: u8,
    pub volume_muted: bool,
    pub brightness: u8,
    pub wifi_ssid: Option<Seq<u8>>,
    pub wifi_connected: bool,
    pub media_title: Seq<u8>,
    pub media_artist: Seq<u8>,
    pub media_playing: bool,
}

impl View for AppState {
    type V = StateV;

    open spec fn view(&self) -> StateV {
        StateV {
            active_workspace: self.active_workspace,
            active_window_title: self.active_window_title@,
            active_window_class: self.active_window_class@,
            battery_level: self.battery_level,
            battery_charging: self.battery_charging,
            volume: self.volume,
            volume_muted: self.volume_muted,
            brightness: self.brightness,
            wifi_ssid: match self.wifi_ssid {
                Some(ref s) => Some(s@),
                None => None,
            },
            wifi_connected: self.wifi_connected,
            media_title: self.media_title@,
            media_artist: self.media_artist@,
            media_playing: self.media_playing,
        }
    }
}

/// The state a fresh daemon starts from: everything zero or empty.
pub open spec fn init_state() -> StateV {
    StateV {
        active_workspace: 0,
        active_window_title: Seq::empty(),
        active_window_class: Seq::empty(),
        battery_level: 0,
        battery_charging: false,
        volume: 0,
        volume_muted: false,
        brightness: 0,
        wifi_ssid: None,
        wifi_connected: false,
        media_title: Seq::empty(),
        media_artist: Seq::empty(),
        media_playing: false,
    }
}

impl Default for AppState {
    fn default() -> (r: AppState)
        ensures
            r@ == init_state(),
    {
        let r = AppState {
            active_workspace: 0,
            active_window_title: Vec::new(),
            active_window_class: Vec::new(),
            battery_level: 0,
            battery_charging: false,
            volume: 0,
            volume_muted: false,
            brightness: 0,
            wifi_ssid: None,
            wifi_connected: false,
            media_title: Vec::new(),
            media_artist: Vec::new(),
            media_playing: false,
        };
        proof {
            assert(r@ =~= init_state());
        }
        r
    }
}

/// `st` after a battery observation.
pub open spec fn with_battery(st: StateV, level: u8, charging: bool) -> StateV {
    StateV { battery_level: level, battery_charging: charging, ..st }
}

/// `st` after an audio observation: volume and mute move as one unit.
pub open spec fn with_audio(st: StateV, volume: u8, muted: bool) -> StateV {
    StateV { volume: volume, volume_muted: muted, ..st }
}

/// `st` after a workspace change.
pub open spec fn with_workspace(st: StateV, id: i32) -> StateV {
    StateV { active_workspace: id, ..st }
}

/// `st` after an active-window change.
pub open spec fn with_window(st: StateV, class: Seq<u8>, title: Seq<u8>) -> StateV {
    StateV { active_window_class: class, active_window_title: title, ..st }
}

/// `st` after the router applies a `volume` command: the volume field
/// alone, as a control command carries no mute observation.
pub open spec fn with_volume(st: StateV, volume: u8) -> StateV {
    StateV { volume: volume, ..st }
}

/// `st` after the router applies a `mute` command.
pub open spec fn with_muted(st: StateV, muted: bool) -> StateV {
    StateV { volume_muted: muted, ..st }
}

/// `st` after one compositor event is folded in: workspace and window
/// changes are recorded; the other event kinds are observed but not kept.
pub open spec fn after_event(st: StateV, e: EventV) -> StateV {
    match e {
        EventV::WorkspaceChanged { id, .. } => with_workspace(st, id),
        EventV::ActiveWindowChanged { class, title } => with_window(st, class, title),
        EventV::MonitorFocused { .. } => st,
        EventV::FullscreenChanged { .. } => st,
    }
}

impl AppState {
    /// Record a battery observation: its two fields together, nothing else.
    pub fn set_battery(&mut self, level: u8, charging: bool)
        ensures
            final(self)@ == with_battery(old(self)@, level, charging),
    {
        self.battery_level = level;
        self.battery_charging = charging;
        proof {
            assert(final(self)@ =~= with_battery(old(self)@, level, charging));
        }
    }

    /// Record an audio observation: volume and mute together, nothing else.
    pub fn set_audio(&mut self, volume: u8, muted: bool)
        ensures
            final(self)@ == with_audio(old(self)@, volume, muted),
    {
        self.volume = volume;
        self.volume_muted = muted;
        proof {
            assert(final(self)@ =~= with_audio(old(self)@, volume, muted));
        }
    }

    /// Record the active workspace, nothing else.
    pub fn set_workspace(&mut self, id: i32)
        ensures
            final(self)@ == with_workspace(old(self)@, id),
    {
        self.active_workspace = id;
        proof {
            assert(final(self)@ =~= with_workspace(old(self)@, id));
        }
    }

    /// Fold one compositor event into the snapshot.
    pub fn apply_event(&mut self, e: HyprlandEvent)
        ensures
            final(self)@ == after_event(old(self)@, e@),
    {
        match e {
            HyprlandEvent::WorkspaceChanged { id, name: _ } => {
                self.set_workspace(id);
            },
            HyprlandEvent::ActiveWindowChanged { class, title } => {
                self.set_window(class, title);
            },
            HyprlandEvent::MonitorFocused { name: _ } => {
            },
            HyprlandEvent::FullscreenChanged { fullscreen: _ } => {
            },
        }
    }

    /// Record the active window's class and title together, nothing else.
    pub fn set_window(&mut self, class: Vec<u8>, title: Vec<u8>)
        ensures
            final(self)@ == with_window(old(self)@, class@, title@),
    {
        let ghost c = class@;
        let ghost t = title@;
        self.active_window_class = class;
        self.active_window_title = title;
        proof {
            assert(final(self)@ =~= with_window(old(self)@, c, t));
        }
    }
}

} // verus!

verus! {

/// Updates to different subsystems touch disjoint fields: a battery
/// observation and an audio observation land in the same snapshot in
/// either order, so neither poller can lose the other's update.
pub proof fn lemma_battery_audio_updates_commute(
    st: StateV,
    level: u8,
    charging: bool,
    volume: u8,
    muted: bool,
)
    ensures
        with_battery(with_audio(st, volume, muted), level, charging) == with_audio(
            with_battery(st, level, charging),
            volume,
            muted,
        ),
{
    assert(with_battery(with_audio(st, volume, muted), level, charging) =~= with_audio(
        with_battery(st, level, charging),
        volume,
        muted,
    ));
}

/// A compositor event and an audio observation also commute: the event
/// listener and the audio poller touch disjoint fields.
pub proof fn lemma_event_audio_updates_commute(st: StateV, e: EventV, volume: u8, muted: bool)
    ensures
        after_event(with_audio(st, volume, muted), e) == with_audio(
            after_event(st, e),
            volume,
            muted,
        ),
{
    assert(after_event(with_audio(st, volume, muted), e) =~= with_audio(
        after_event(st, e),
        volume,
        muted,
    ));
}

} // verus!
