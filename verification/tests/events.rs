use terra_shell::hyprland::{
    build_dispatch_cmd, listener_step, parse_event, HyprlandEvent, ListenerAction, SocketEvent,
    RECONNECT_DELAY_SECS,
};
use terra_shell::state::AppState;

#[test]
fn workspace_event_parses_the_id() {
    match parse_event(b"workspace>>3") {
        Some(HyprlandEvent::WorkspaceChanged { id, name }) => {
            assert_eq!(id, 3);
            assert_eq!(name, b"3".to_vec());
        },
        _ => panic!("expected a workspace event"),
    }
}

#[test]
fn workspace_event_with_bad_id_is_dropped() {
    assert!(parse_event(b"workspace>>abc").is_none());
    assert!(parse_event(b"workspace>>").is_none());
}

#[test]
fn active_window_event_splits_on_the_first_comma() {
    match parse_event(b"activewindow>>firefox,GitHub") {
        Some(HyprlandEvent::ActiveWindowChanged { class, title }) => {
            assert_eq!(class, b"firefox".to_vec());
            assert_eq!(title, b"GitHub".to_vec());
        },
        _ => panic!("expected an active-window event"),
    }
    match parse_event(b"activewindow>>term,a,b") {
        Some(HyprlandEvent::ActiveWindowChanged { class, title }) => {
            assert_eq!(class, b"term".to_vec());
            assert_eq!(title, b"a,b".to_vec());
        },
        _ => panic!("expected an active-window event"),
    }
}

#[test]
fn active_window_event_without_comma_is_dropped() {
    assert!(parse_event(b"activewindow>>nocomma").is_none());
}

#[test]
fn fullscreen_event_reads_the_flag() {
    match parse_event(b"fullscreen>>1") {
        Some(HyprlandEvent::FullscreenChanged { fullscreen }) => assert!(fullscreen),
        _ => panic!("expected a fullscreen event"),
    }
    match parse_event(b"fullscreen>>0") {
        Some(HyprlandEvent::FullscreenChanged { fullscreen }) => assert!(!fullscreen),
        _ => panic!("expected a fullscreen event"),
    }
    match parse_event(b"fullscreen>>2") {
        Some(HyprlandEvent::FullscreenChanged { fullscreen }) => assert!(!fullscreen),
        _ => panic!("expected a fullscreen event"),
    }
}

#[test]
fn monitor_events_carry_the_name() {
    match parse_event(b"monitoradded>>DP-1") {
        Some(HyprlandEvent::MonitorFocused { name }) => assert_eq!(name, b"DP-1".to_vec()),
        _ => panic!("expected a monitor event"),
    }
    match parse_event(b"focusedmon>>eDP-1") {
        Some(HyprlandEvent::MonitorFocused { name }) => assert_eq!(name, b"eDP-1".to_vec()),
        _ => panic!("expected a monitor event"),
    }
}

#[test]
fn line_without_delimiter_is_dropped() {
    assert!(parse_event(b"workspace 3").is_none());
    assert!(parse_event(b"").is_none());
    assert!(parse_event(b">").is_none());
}

#[test]
fn unknown_event_name_is_dropped() {
    assert!(parse_event(b"openlayer>>waybar").is_none());
}

#[test]
fn first_delimiter_wins() {
    match parse_event(b"workspace>>>7") {
        None => {},
        Some(_) => panic!("\">7\" is no integer, the line should drop"),
    }
}

#[test]
fn events_fold_into_the_state() {
    let mut st = AppState::default();
    st.apply_event(parse_event(b"workspace>>5").unwrap());
    assert_eq!(st.active_workspace, 5);
    st.apply_event(parse_event(b"activewindow>>firefox,GitHub").unwrap());
    assert_eq!(st.active_window_class, b"firefox".to_vec());
    assert_eq!(st.active_window_title, b"GitHub".to_vec());
    st.apply_event(parse_event(b"fullscreen>>1").unwrap());
    assert_eq!(st.active_workspace, 5);
    assert_eq!(st.active_window_class, b"firefox".to_vec());
}

#[test]
fn listener_keeps_reading_a_live_connection() {
    assert!(matches!(listener_step(SocketEvent::Connected), ListenerAction::AwaitLine));
    match listener_step(SocketEvent::Line(b"workspace>>2".to_vec())) {
        ListenerAction::Emit(HyprlandEvent::WorkspaceChanged { id, .. }) => assert_eq!(id, 2),
        _ => panic!("expected an emitted event"),
    }
    assert!(matches!(
        listener_step(SocketEvent::Line(b"garbage".to_vec())),
        ListenerAction::AwaitLine
    ));
}

#[test]
fn listener_always_retries_after_a_failure() {
    match listener_step(SocketEvent::ConnectFailed) {
        ListenerAction::Backoff(s) => assert_eq!(s, RECONNECT_DELAY_SECS),
        _ => panic!("a failed connect must back off and retry"),
    }
    match listener_step(SocketEvent::StreamEnded) {
        ListenerAction::Backoff(s) => assert_eq!(s, 2),
        _ => panic!("a dropped stream must back off and retry"),
    }
}

#[test]
fn dispatch_command_line_is_assembled_verbatim() {
    assert_eq!(build_dispatch_cmd(b"workspace", b"2"), b"dispatch workspace 2".to_vec());
}
