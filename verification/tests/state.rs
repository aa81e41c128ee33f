use kex::ipc::message::TerminalInfo;
use kex::server::state::{snapshot, state_path, ServerState, ViewMeta};

#[test]
fn default_state_is_empty() {
    let state = ServerState::default();
    assert!(state.terminals.is_empty());
    assert!(state.views.is_empty());
    assert!(state.active_view.is_none());
    assert!(state.synced_terminals.is_empty());
}

#[test]
fn state_file_lies_in_the_socket_directory() {
    assert_eq!(state_path("/tmp/kex-1000"), "/tmp/kex-1000/state.json");
    assert_eq!(state_path("/tmp/kex-1000/"), "/tmp/kex-1000/state.json");
    assert_eq!(state_path(""), "state.json");
}

#[test]
fn snapshot_keeps_terminals_views_and_shares() {
    let terminals = vec![TerminalInfo {
        id: "abc12345".into(),
        name: Some("dev".into()),
        created_at: "2026-02-21 10:00".into(),
    }];
    let views = vec![ViewMeta {
        id: "view0001".into(),
        name: None,
        terminal_ids: vec!["abc12345".into()],
        layout: serde_json::from_str("{\"type\":\"leaf\"}").unwrap(),
        focused: "abc12345".into(),
        created_at: "2026-02-21 10:00".into(),
    }];
    let state = snapshot(terminals, views, &vec!["abc12345".to_string()]);
    assert_eq!(state.terminals.len(), 1);
    assert_eq!(state.terminals[0].id, "abc12345");
    assert_eq!(state.terminals[0].name.as_deref(), Some("dev"));
    assert_eq!(state.terminals[0].created_at, "2026-02-21 10:00");
    assert_eq!(state.views[0].layout["type"], "leaf");
    assert!(state.active_view.is_none());
    assert_eq!(state.synced_terminals, vec!["abc12345".to_string()]);
}
