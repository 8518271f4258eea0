use terra_shell::ipc::{handle_message, Action, Routed};
use terra_shell::state::AppState;

fn reply_of(line: &[u8], state: &mut AppState) -> Vec<u8> {
    match handle_message(line, state) {
        Routed::Reply(r) => r,
        Routed::Command { reply, .. } => reply,
        Routed::WorkspaceQuery { .. } => panic!("unexpected workspace query"),
    }
}

#[test]
fn empty_line_is_an_error() {
    let mut st = AppState::default();
    assert_eq!(reply_of(b"", &mut st), b"{\"error\": \"empty command\"}".to_vec());
}

#[test]
fn whitespace_only_line_is_an_error() {
    let mut st = AppState::default();
    assert_eq!(reply_of(b" \t  ", &mut st), b"{\"error\": \"empty command\"}".to_vec());
}

#[test]
fn unknown_command_is_an_error() {
    let mut st = AppState::default();
    assert_eq!(reply_of(b"frobnicate now", &mut st), b"{\"error\": \"unknown command\"}".to_vec());
}

#[test]
fn volume_with_valid_argument_replies_ok_and_stores_it() {
    let mut st = AppState::default();
    match handle_message(b"volume 50", &mut st) {
        Routed::Command { action: Action::SetVolume(50), reply } => {
            assert_eq!(reply, b"{\"ok\": true}".to_vec());
        },
        _ => panic!("expected a volume command"),
    }
    assert_eq!(st.volume, 50);
}

#[test]
fn volume_accepts_a_leading_plus_sign() {
    let mut st = AppState::default();
    match handle_message(b"volume +128", &mut st) {
        Routed::Command { action: Action::SetVolume(128), .. } => {},
        _ => panic!("expected a volume command"),
    }
}

#[test]
fn volume_with_overflowing_argument_is_a_no_op_that_replies_ok() {
    let mut st = AppState::default();
    st.volume = 7;
    assert_eq!(reply_of(b"volume 256", &mut st), b"{\"ok\": true}".to_vec());
    assert_eq!(st.volume, 7);
}

#[test]
fn volume_without_argument_is_a_no_op_that_replies_ok() {
    let mut st = AppState::default();
    st.volume = 7;
    assert_eq!(reply_of(b"volume", &mut st), b"{\"ok\": true}".to_vec());
    assert_eq!(st.volume, 7);
}

#[test]
fn volume_with_garbage_argument_is_a_no_op_that_replies_ok() {
    let mut st = AppState::default();
    assert_eq!(reply_of(b"volume loud", &mut st), b"{\"ok\": true}".to_vec());
    assert_eq!(st.volume, 0);
}

#[test]
fn mute_flips_the_flag_and_replies_ok() {
    let mut st = AppState::default();
    match handle_message(b"mute", &mut st) {
        Routed::Command { action: Action::ToggleMute, reply } => {
            assert_eq!(reply, b"{\"ok\": true}".to_vec());
        },
        _ => panic!("expected a mute command"),
    }
    assert!(st.volume_muted);
    handle_message(b"mute", &mut st);
    assert!(!st.volume_muted);
}

#[test]
fn brightness_with_valid_argument_names_the_adapter_call() {
    let mut st = AppState::default();
    match handle_message(b"brightness 40", &mut st) {
        Routed::Command { action: Action::SetBrightness(40), reply } => {
            assert_eq!(reply, b"{\"ok\": true}".to_vec());
        },
        _ => panic!("expected a brightness command"),
    }
}

#[test]
fn brightness_without_argument_replies_ok() {
    let mut st = AppState::default();
    assert_eq!(reply_of(b"brightness", &mut st), b"{\"ok\": true}".to_vec());
}

#[test]
fn media_commands_map_to_their_actions() {
    let mut st = AppState::default();
    assert!(matches!(
        handle_message(b"media-toggle", &mut st),
        Routed::Command { action: Action::MediaPlayPause, .. }
    ));
    assert!(matches!(
        handle_message(b"play-pause", &mut st),
        Routed::Command { action: Action::MediaPlayPause, .. }
    ));
    assert!(matches!(
        handle_message(b"media-next", &mut st),
        Routed::Command { action: Action::MediaNext, .. }
    ));
    assert!(matches!(
        handle_message(b"next", &mut st),
        Routed::Command { action: Action::MediaNext, .. }
    ));
    assert!(matches!(
        handle_message(b"media-prev", &mut st),
        Routed::Command { action: Action::MediaPrev, .. }
    ));
    assert!(matches!(
        handle_message(b"prev", &mut st),
        Routed::Command { action: Action::MediaPrev, .. }
    ));
}

#[test]
fn dispatch_with_two_arguments_carries_them() {
    let mut st = AppState::default();
    match handle_message(b"dispatch workspace 2", &mut st) {
        Routed::Command { action: Action::Dispatch { command, args }, reply } => {
            assert_eq!(command, b"workspace".to_vec());
            assert_eq!(args, b"2".to_vec());
            assert_eq!(reply, b"{\"ok\": true}".to_vec());
        },
        _ => panic!("expected a dispatch command"),
    }
}

#[test]
fn dispatch_with_too_few_arguments_replies_ok_without_a_call() {
    let mut st = AppState::default();
    assert_eq!(reply_of(b"dispatch workspace", &mut st), b"{\"ok\": true}".to_vec());
}

#[test]
fn workspace_query_reports_the_active_id() {
    let mut st = AppState::default();
    st.active_workspace = 4;
    match handle_message(b"workspace", &mut st) {
        Routed::WorkspaceQuery { active } => assert_eq!(active, 4),
        _ => panic!("expected a workspace query"),
    }
    match handle_message(b"workspaces", &mut st) {
        Routed::WorkspaceQuery { active } => assert_eq!(active, 4),
        _ => panic!("expected a workspace query"),
    }
}

#[test]
fn commands_are_case_sensitive_and_exact() {
    let mut st = AppState::default();
    assert_eq!(reply_of(b"Volume 10", &mut st), b"{\"error\": \"unknown command\"}".to_vec());
    assert_eq!(reply_of(b"stateful", &mut st), b"{\"error\": \"unknown command\"}".to_vec());
}

#[test]
fn queries_leave_the_state_unchanged() {
    let mut st = AppState::default();
    st.volume = 33;
    st.battery_level = 80;
    reply_of(b"state", &mut st);
    reply_of(b"battery", &mut st);
    reply_of(b"audio", &mut st);
    assert_eq!(st.volume, 33);
    assert_eq!(st.battery_level, 80);
    assert!(!st.volume_muted);
}
