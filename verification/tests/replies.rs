use terra_shell::hyprland::Workspace;
use terra_shell::ipc::{handle_message, workspaces_reply, Routed};
use terra_shell::state::AppState;

fn reply_of(line: &[u8], state: &mut AppState) -> Vec<u8> {
    match handle_message(line, state) {
        Routed::Reply(r) => r,
        Routed::Command { reply, .. } => reply,
        Routed::WorkspaceQuery { .. } => panic!("unexpected workspace query"),
    }
}

#[test]
fn battery_query_reflects_the_latest_observation() {
    let mut st = AppState::default();
    st.set_battery(85, true);
    assert_eq!(
        reply_of(b"battery", &mut st),
        b"{\"type\":\"battery\",\"level\":85,\"charging\":true}".to_vec()
    );
}

#[test]
fn audio_query_reflects_the_latest_observation() {
    let mut st = AppState::default();
    st.set_audio(30, false);
    assert_eq!(
        reply_of(b"audio", &mut st),
        b"{\"type\":\"audio\",\"volume\":30,\"muted\":false}".to_vec()
    );
    st.set_audio(31, true);
    assert_eq!(
        reply_of(b"audio", &mut st),
        b"{\"type\":\"audio\",\"volume\":31,\"muted\":true}".to_vec()
    );
}

#[test]
fn volume_command_is_visible_to_the_next_query() {
    let mut st = AppState::default();
    handle_message(b"volume 64", &mut st);
    assert_eq!(
        reply_of(b"audio", &mut st),
        b"{\"type\":\"audio\",\"volume\":64,\"muted\":false}".to_vec()
    );
}

#[test]
fn window_query_reflects_the_window_event() {
    let mut st = AppState::default();
    st.set_window(b"firefox".to_vec(), b"GitHub".to_vec());
    assert_eq!(
        reply_of(b"window", &mut st),
        b"{\"type\":\"window\",\"title\":\"GitHub\",\"class\":\"firefox\"}".to_vec()
    );
}

#[test]
fn window_titles_are_json_escaped() {
    let mut st = AppState::default();
    st.set_window(b"term\\x".to_vec(), b"a \"quoted\"\ntitle\x01".to_vec());
    assert_eq!(
        reply_of(b"window", &mut st),
        b"{\"type\":\"window\",\"title\":\"a \\\"quoted\\\"\\ntitle\\u0001\",\"class\":\"term\\\\x\"}"
            .to_vec()
    );
}

#[test]
fn media_query_reads_the_media_fields() {
    let mut st = AppState::default();
    st.media_title = b"Song".to_vec();
    st.media_artist = b"Artist".to_vec();
    st.media_playing = true;
    assert_eq!(
        reply_of(b"media", &mut st),
        b"{\"type\":\"media\",\"title\":\"Song\",\"artist\":\"Artist\",\"playing\":true}".to_vec()
    );
}

#[test]
fn network_query_shows_null_without_an_ssid() {
    let mut st = AppState::default();
    assert_eq!(
        reply_of(b"network", &mut st),
        b"{\"type\":\"network\",\"connected\":false,\"ssid\":null}".to_vec()
    );
    st.wifi_connected = true;
    st.wifi_ssid = Some(b"HomeWifi".to_vec());
    assert_eq!(
        reply_of(b"network", &mut st),
        b"{\"type\":\"network\",\"connected\":true,\"ssid\":\"HomeWifi\"}".to_vec()
    );
}

#[test]
fn state_query_serializes_the_whole_default_snapshot() {
    let mut st = AppState::default();
    let expected = b"{\"type\":\"state\",\"workspace\":0,\"window\":{\"title\":\"\",\"class\":\"\"},\"battery\":{\"level\":0,\"charging\":false},\"audio\":{\"volume\":0,\"muted\":false},\"network\":{\"connected\":false,\"ssid\":null},\"media\":{\"title\":\"\",\"artist\":\"\",\"playing\":false}}";
    assert_eq!(reply_of(b"state", &mut st), expected.to_vec());
    assert_eq!(reply_of(b"all", &mut st), expected.to_vec());
}

#[test]
fn state_query_prints_negative_workspace_ids() {
    let mut st = AppState::default();
    st.set_workspace(-3);
    let reply = reply_of(b"state", &mut st);
    let text = String::from_utf8(reply).unwrap();
    assert!(text.contains("\"workspace\":-3"));
}

#[test]
fn workspaces_reply_with_an_empty_list() {
    let list: Vec<Workspace> = Vec::new();
    assert_eq!(
        workspaces_reply(1, &list),
        b"{\"type\":\"workspaces\",\"active\":1,\"list\":[]}".to_vec()
    );
}

#[test]
fn workspaces_reply_joins_records_with_commas() {
    let w1 = Workspace {
        id: 1,
        name: b"1".to_vec(),
        monitor: b"eDP-1".to_vec(),
        windows: 2,
        has_fullscreen: false,
        last_window: b"0xdead".to_vec(),
        last_window_title: b"vim".to_vec(),
    };
    let w2 = Workspace {
        id: -99,
        name: b"special".to_vec(),
        monitor: b"DP-1".to_vec(),
        windows: 0,
        has_fullscreen: true,
        last_window: b"".to_vec(),
        last_window_title: b"".to_vec(),
    };
    let list = vec![w1, w2];
    let expected = b"{\"type\":\"workspaces\",\"active\":2,\"list\":[{\"id\":1,\"name\":\"1\",\"monitor\":\"eDP-1\",\"windows\":2,\"hasfullscreen\":false,\"lastwindow\":\"0xdead\",\"lastwindowtitle\":\"vim\"},{\"id\":-99,\"name\":\"special\",\"monitor\":\"DP-1\",\"windows\":0,\"hasfullscreen\":true,\"lastwindow\":\"\",\"lastwindowtitle\":\"\"}]}";
    assert_eq!(workspaces_reply(2, &list), expected.to_vec());
}
