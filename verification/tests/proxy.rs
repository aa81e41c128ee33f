use kex::cloud::proxy::{
    PendingProxyRequest, PendingWsProxy, ProxyState, Task, FRAME_PROXY_REQUEST_BODY,
    FRAME_PROXY_RESPONSE_BODY, FRAME_PROXY_WS_DATA, WS_SUBTYPE_BINARY, WS_SUBTYPE_TEXT,
};

#[test]
fn proxy_state_expose_unexpose() {
    let mut state = ProxyState::new();
    state.expose(3000, false);
    assert!(state.exposed_ports.contains_key(&3000));
    assert!(!state.exposed_ports[&3000].public);

    state.set_url(3000, "https://example.com".into());
    assert_eq!(state.exposed_ports[&3000].url.as_deref(), Some("https://example.com"));

    assert!(state.unexpose(3000));
    assert!(!state.exposed_ports.contains_key(&3000));
    assert!(!state.unexpose(3000));
}

#[test]
fn expose_adds_port() {
    let mut state = ProxyState::new();
    state.expose(3000, false);
    assert!(state.exposed_ports.contains_key(&3000));
    assert!(!state.exposed_ports[&3000].public);
    assert!(state.exposed_ports[&3000].url.is_none());
}

#[test]
fn expose_public_flag() {
    let mut state = ProxyState::new();
    state.expose(8080, true);
    assert!(state.exposed_ports[&8080].public);
}

#[test]
fn unexpose_removes_port() {
    let mut state = ProxyState::new();
    state.expose(3000, false);
    assert!(state.unexpose(3000));
    assert!(state.exposed_ports.is_empty());
}

#[test]
fn unexpose_nonexistent_returns_false() {
    let mut state = ProxyState::new();
    assert!(!state.unexpose(9999));
}

#[test]
fn ws_frame_constants() {
    assert_eq!(FRAME_PROXY_WS_DATA, 0x22);
    assert_eq!(WS_SUBTYPE_TEXT, 0x01);
    assert_eq!(WS_SUBTYPE_BINARY, 0x02);
    assert_ne!(FRAME_PROXY_WS_DATA, FRAME_PROXY_REQUEST_BODY);
    assert_ne!(FRAME_PROXY_WS_DATA, FRAME_PROXY_RESPONSE_BODY);
}

#[test]
fn cancel_ws_aborts_tasks() {
    let mut state = ProxyState::new();
    state.pending_ws.insert("req12345".into(), PendingWsProxy { port: 3000 });
    assert_eq!(state.pending_ws.len(), 1);
    assert_eq!(state.cancel_ws("req12345"), vec![Task::Socket("req12345".into())]);
    assert_eq!(state.pending_ws.len(), 0);
    assert!(state.cancel_ws("req12345").is_empty());
}

#[test]
fn cancel_all_ws_clears_all() {
    let mut state = ProxyState::new();
    for i in 0..3 {
        state.pending_ws.insert(format!("req{i}"), PendingWsProxy { port: 3000 });
    }
    assert_eq!(state.pending_ws.len(), 3);
    assert_eq!(state.cancel_all_ws().len(), 3);
    assert_eq!(state.pending_ws.len(), 0);
}

#[test]
fn set_url_updates_exposed_port() {
    let mut state = ProxyState::new();
    state.expose(3000, false);
    state.set_url(3000, "https://example.com/p/3000/".into());
    assert_eq!(
        state.exposed_ports[&3000].url.as_deref(),
        Some("https://example.com/p/3000/")
    );
}

#[test]
fn set_url_nonexistent_port_is_noop() {
    let mut state = ProxyState::new();
    state.set_url(9999, "https://example.com".into());
    assert!(state.exposed_ports.is_empty());
}

#[test]
fn cancel_request_aborts_handle() {
    let mut state = ProxyState::new();
    state.pending_requests.insert("req1".into(), PendingProxyRequest { port: 3000 });
    assert_eq!(state.cancel_request("req1"), vec![Task::Request("req1".into())]);
    assert!(state.pending_requests.is_empty());
}

#[test]
fn cancel_all_requests_clears_all_and_ws() {
    let mut state = ProxyState::default();
    for i in 0..3 {
        state.pending_requests.insert(format!("req{i}"), PendingProxyRequest { port: 3000 });
    }
    state.pending_ws.insert("ws1".into(), PendingWsProxy { port: 3000 });

    let stopped = state.cancel_all_requests();
    assert_eq!(
        stopped,
        vec![
            Task::Request("req0".into()),
            Task::Request("req1".into()),
            Task::Request("req2".into()),
            Task::Socket("ws1".into()),
        ]
    );
    assert!(state.pending_requests.is_empty());
    assert!(state.pending_ws.is_empty());
}

#[test]
fn exposing_again_forgets_the_address() {
    let mut state = ProxyState::new();
    state.expose(3000, false);
    state.set_url(3000, "https://example.com".into());
    state.expose(3000, true);
    assert!(state.exposed_ports[&3000].public);
    assert!(state.exposed_ports[&3000].url.is_none());
}
