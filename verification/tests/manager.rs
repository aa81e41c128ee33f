use kex::cloud::action::CloudAction;
use kex::cloud::answer::{
    check_admission, check_consent, read_admission, websocket_url, ws_recv_text, Incoming,
};
use kex::cloud::frame::{decode_binary_frame, encode_binary_frame, encode_ws_binary_frame};
use kex::cloud::local::{HeaderValues, ProxyEvent};
use kex::cloud::link::{
    CloudCommand, CloudStep, ConfirmEvent, ConnectEvent, ConnectStep, CreateOutcome, LinkEvent,
    Pending, TerminalEvent,
};
use kex::cloud::manager::{gives_no_size, CloudManager};
use kex::cloud::message::envelope;
use kex::cloud::proxy::{Task, WsWriteMsg, WS_SUBTYPE_BINARY, WS_SUBTYPE_TEXT};
use kex::credential::Credential;
use kex::table::Table;
use serde_json::Value;

fn json(text: &str) -> Value {
    serde_json::from_str(text).unwrap()
}

fn cred() -> Credential {
    Credential { token: "abc".into(), server_url: "https://app.kex.dev".into() }
}

fn connected() -> CloudManager {
    let mut mgr = CloudManager::new();
    connect(&mut mgr);
    mgr
}

fn advance(mgr: &mut CloudManager, event: ConnectEvent) -> (ConnectStep, Vec<CloudAction>) {
    assert!(mgr.awaits(&event));
    mgr.ensure_connected(&cred(), event)
}

fn call(mgr: &mut CloudManager) {
    advance(mgr, ConnectEvent::Begin);
    advance(mgr, ConnectEvent::Dialed(Ok(())));
}

fn connect(mgr: &mut CloudManager) {
    call(mgr);
    advance(mgr, ConnectEvent::AuthSent(Ok(())));
    let answer = Incoming::Text(r#"{"type":"auth.ok"}"#.into());
    let (step, actions) = advance(mgr, ConnectEvent::Answer(answer));
    assert!(matches!(step, ConnectStep::SendStatus { .. }));
    assert!(actions.is_empty());
    assert!(mgr.is_connected());
    let (step, _) = advance(mgr, ConnectEvent::StatusSent(Ok(())));
    assert!(matches!(step, ConnectStep::Done(Ok(()))));
}

fn share(mgr: &mut CloudManager, id: &str, name: Option<&str>) {
    let name = name.map(String::from);
    let step = mgr.handle_cmd(
        CloudCommand::Sync { id: id.into(), name: name.clone() },
        Ok(()),
    );
    let then_do = match step {
        CloudStep::Confirm { then_do, .. } => then_do,
        _ => panic!("expected a question to the cloud"),
    };
    let (step, actions) = mgr.resume(then_do, Ok(()), 0);
    assert!(matches!(step, CloudStep::Reply(Ok(()))));
    assert!(actions.is_empty());
}

fn expose(mgr: &mut CloudManager, port: u16, public: bool) {
    let (step, _) = mgr.resume(Pending::Expose { port, public }, Ok(()), 0);
    assert!(matches!(step, CloudStep::Send { .. }));
}

fn sent_json(actions: &[CloudAction]) -> Value {
    match actions {
        [CloudAction::SendText(text)] => json(text),
        _ => panic!("expected one text message, got {actions:?}"),
    }
}

fn sent_bytes(actions: &[CloudAction]) -> Vec<u8> {
    match actions {
        [CloudAction::SendBinary(data)] => data.clone(),
        _ => panic!("expected one binary message, got {actions:?}"),
    }
}

fn status_of(mgr: &CloudManager) -> Value {
    json(&mgr.build_device_status())
}

#[test]
fn envelope_format() {
    let msg = envelope("auth", json(r#"{"token": "abc"}"#));
    let v: Value = serde_json::from_str(&msg).unwrap();
    assert_eq!(v["v"], 1);
    assert_eq!(v["type"], "auth");
    assert_eq!(v["payload"]["token"], "abc");
}

#[test]
fn envelope_text_is_exact() {
    assert_eq!(
        envelope("x", json(r#"[1, "a\"b", null, true]"#)),
        r#"{"payload":[1,"a\"b",null,true],"type":"x","v":1}"#
    );
}

#[test]
fn sync_without_credentials_returns_error() {
    let mut mgr = CloudManager::new();
    let cmd = CloudCommand::Sync { id: "t1".into(), name: Some("test".into()) };
    let step = mgr.handle_cmd(cmd, Err("not logged in".into()));
    assert!(matches!(step, CloudStep::Reply(Err(e)) if e == "not logged in"));
    assert!(mgr.synced_ids().is_empty());
}

#[test]
fn unsync_unknown_terminal_returns_error() {
    let mut mgr = CloudManager::new();
    let step = mgr.handle_cmd(CloudCommand::Unsync { id: "nonexist".into() }, Ok(()));
    assert!(
        matches!(step, CloudStep::Reply(Err(e)) if e == "terminal nonexist is not synced")
    );
}

#[test]
fn build_device_status_includes_terminals() {
    let mut mgr = CloudManager::new();
    share(&mut mgr, "t1", Some("dev"));
    share(&mut mgr, "t2", None);
    let v = status_of(&mgr);
    assert_eq!(v["type"], "device.status");
    let list = v["payload"]["syncedTerminals"].as_array().unwrap();
    assert_eq!(list.len(), 2);
    let has_name = list.iter().any(|t| t.get("name").is_some());
    let no_name = list.iter().any(|t| t.get("name").is_none());
    assert!(has_name && no_name);
}

#[test]
fn encode_binary_frame_format() {
    let frame = encode_binary_frame("abcd1234", 0x01, b"hello");
    assert_eq!(frame[0], 0x01);
    assert_eq!(&frame[1..9], b"abcd1234");
    assert_eq!(&frame[9..], b"hello");
}

#[test]
fn encode_binary_frame_pads_short_id() {
    let frame = encode_binary_frame("ab", 0x02, b"x");
    assert_eq!(&frame[1..3], b"ab");
    assert_eq!(&frame[3..9], &[0u8; 6]);
}

#[test]
fn handle_ws_binary_writes_to_pty() {
    let mut mgr = CloudManager::new();
    share(&mut mgr, "abcd1234", None);
    let frame = encode_binary_frame("abcd1234", 0x01, b"ls\n");
    let actions = mgr.handle_ws_binary(&frame);
    assert!(matches!(
        &actions[..],
        [CloudAction::WritePty { id, data }] if id == "abcd1234" && data == b"ls\n"
    ));
    let frame = encode_binary_frame("other", 0x01, b"ls\n");
    assert!(mgr.handle_ws_binary(&frame).is_empty());
}

#[test]
fn handle_ws_binary_resize_updates_parser() {
    let mut mgr = connected();
    share(&mut mgr, "abcd1234", None);
    let mut resize_payload = Vec::new();
    resize_payload.extend_from_slice(&100u16.to_be_bytes());
    resize_payload.extend_from_slice(&50u16.to_be_bytes());
    let frame = encode_binary_frame("abcd1234", 0x02, &resize_payload);
    assert!(!gives_no_size(&frame));
    let actions = mgr.handle_ws_binary(&frame);
    assert!(matches!(
        &actions[..],
        [CloudAction::ResizePty { id, cols: 100, rows: 50 }] if id == "abcd1234"
    ));
    let shown = mgr.handle_web_attach("abcd1234");
    let meta = sent_json(&shown[..1]);
    assert_eq!(meta["payload"]["rows"], 50);
    assert_eq!(meta["payload"]["cols"], 100);
}

#[test]
fn handle_terminal_output_feeds_parser() {
    let mut mgr = connected();
    share(&mut mgr, "abcd1234", None);
    let actions = mgr.handle_terminal_output("abcd1234", b"hello world".to_vec());
    assert_eq!(sent_bytes(&actions), encode_binary_frame("abcd1234", 0x01, b"hello world"));
    let shown = mgr.handle_web_attach("abcd1234");
    let picture = decode_binary_frame(&sent_bytes(&shown[1..])).unwrap().payload;
    let mut copy = vt100::Parser::new(24, 80, 0);
    copy.process(&picture);
    assert!(copy.screen().contents().contains("hello world"));
}

#[test]
fn build_device_status_includes_exposed_ports() {
    let mut mgr = CloudManager::new();
    expose(&mut mgr, 3000, false);
    expose(&mut mgr, 8080, true);
    let v = status_of(&mgr);
    let ports = v["payload"]["exposedPorts"].as_array().unwrap();
    assert_eq!(ports.len(), 2);
    let has_public = ports.iter().any(|p| p["public"] == true);
    let has_private = ports.iter().any(|p| p["public"] == false);
    assert!(has_public && has_private);
}

#[test]
fn proxy_event_sends_response_head() {
    let head = || {
        let mut headers = Table::new();
        headers.insert(
            "content-type".to_string(),
            HeaderValues { values: vec!["text/html".into()] },
        );
        headers.insert(
            "set-cookie".to_string(),
            HeaderValues { values: vec!["a=1".into(), "b=2".into()] },
        );
        ProxyEvent::Head { request_id: "req12345".into(), status: 200, headers }
    };
    let mut mgr = CloudManager::new();
    assert!(mgr.handle_proxy_event(head()).is_empty());
    let mut mgr = connected();
    let v = sent_json(&mgr.handle_proxy_event(head()));
    assert_eq!(v["type"], "proxy.response.head");
    assert_eq!(v["payload"]["requestId"], "req12345");
    assert_eq!(v["payload"]["status"], 200);
    assert_eq!(v["payload"]["headers"]["content-type"], "text/html");
    assert_eq!(v["payload"]["headers"]["set-cookie"], json(r#"["a=1","b=2"]"#));
}

fn start_request(mgr: &mut CloudManager, id: &str) {
    let payload = format!(r#"{{"requestId":"{id}","port":3000}}"#);
    let actions = mgr.handle_proxy_request_head(&json(&payload));
    assert!(matches!(&actions[..], [CloudAction::StartRequest { .. }]));
}

fn under_way(mgr: &mut CloudManager) -> usize {
    mgr.drop_conn().len()
}

#[test]
fn proxy_event_end_removes_pending() {
    let mut mgr = CloudManager::new();
    start_request(&mut mgr, "req1");
    mgr.handle_proxy_event(ProxyEvent::End { request_id: "req1".into() });
    assert_eq!(under_way(&mut mgr), 0);
}

#[test]
fn proxy_event_error_removes_pending() {
    let mut mgr = CloudManager::new();
    start_request(&mut mgr, "req1");
    mgr.handle_proxy_event(ProxyEvent::Error {
        request_id: "req1".into(),
        message: "connection refused".into(),
    });
    assert_eq!(under_way(&mut mgr), 0);
}

#[test]
fn encode_ws_binary_frame_format() {
    let frame = encode_ws_binary_frame("ws1a2b3c", WS_SUBTYPE_TEXT, b"hello");
    assert_eq!(frame[0], 0x22);
    assert_eq!(&frame[1..9], b"ws1a2b3c");
    assert_eq!(frame[9], 0x01);
    assert_eq!(&frame[10..], b"hello");
}

#[test]
fn encode_ws_binary_frame_binary_subtype() {
    let frame = encode_ws_binary_frame("ws1a2b3c", WS_SUBTYPE_BINARY, &[0xFF, 0x00]);
    assert_eq!(frame[9], 0x02);
    assert_eq!(&frame[10..], &[0xFF, 0x00]);
}

#[test]
fn link_frames_read_back() {
    let frame = decode_binary_frame(&encode_binary_frame("ab", 7, b"xyz")).unwrap();
    assert_eq!((frame.kind, frame.id.as_str(), frame.payload), (7, "ab", b"xyz".to_vec()));
    assert!(decode_binary_frame(&[1; 8]).is_none());
    let frame = decode_binary_frame(&[1; 9]).unwrap();
    assert_eq!(frame.id, "\u{1}".repeat(8));
    assert!(frame.payload.is_empty());
}

#[test]
fn every_local_event_is_told() {
    let mut mgr = connected();
    let id = || "req1".to_string();
    let body = mgr.handle_proxy_event(ProxyEvent::Body { request_id: id(), data: vec![1, 2] });
    assert_eq!(sent_bytes(&body), encode_binary_frame("req1", 0x21, &[1, 2]));
    let end = sent_json(&mgr.handle_proxy_event(ProxyEvent::End { request_id: id() }));
    assert_eq!(end["type"], "proxy.response.end");
    assert_eq!(end["payload"]["requestId"], "req1");
    let error = sent_json(&mgr.handle_proxy_event(ProxyEvent::Error {
        request_id: id(),
        message: "refused".into(),
    }));
    assert_eq!(error["type"], "proxy.response.error");
    assert_eq!(error["payload"]["message"], "refused");
    let open = sent_json(&mgr.handle_proxy_event(ProxyEvent::WsOpen { request_id: id() }));
    assert_eq!(open["type"], "proxy.ws.open");
    let data = mgr.handle_proxy_event(ProxyEvent::WsData {
        request_id: id(),
        is_text: true,
        data: b"hi".to_vec(),
    });
    assert_eq!(sent_bytes(&data), encode_ws_binary_frame("req1", WS_SUBTYPE_TEXT, b"hi"));
    let data = mgr.handle_proxy_event(ProxyEvent::WsData {
        request_id: id(),
        is_text: false,
        data: vec![0],
    });
    assert_eq!(sent_bytes(&data), encode_ws_binary_frame("req1", WS_SUBTYPE_BINARY, &[0]));
    let failed = sent_json(&mgr.handle_proxy_event(ProxyEvent::WsError {
        request_id: id(),
        message: "gone".into(),
    }));
    assert_eq!(failed["type"], "proxy.ws.error");
    assert_eq!(failed["payload"]["message"], "gone");
}

#[test]
fn closed_socket_is_stopped_and_told() {
    let mut mgr = connected();
    let actions =
        mgr.handle_proxy_ws_upgrade(&json(r#"{"requestId":"ws1","port":3000,"path":"/s"}"#));
    assert!(matches!(
        &actions[..],
        [CloudAction::StartSocket { request_id, port: 3000, path, headers }]
            if request_id == "ws1" && path == "/s" && headers.is_empty()
    ));
    let actions = mgr.handle_proxy_event(ProxyEvent::WsClose {
        request_id: "ws1".into(),
        code: 1006,
        reason: "connection lost".into(),
    });
    assert!(matches!(&actions[0], CloudAction::Stop(Task::Socket(id)) if id == "ws1"));
    let v = sent_json(&actions[1..]);
    assert_eq!(v["type"], "proxy.ws.close");
    assert_eq!(v["payload"]["code"], 1006);
    assert_eq!(v["payload"]["reason"], "connection lost");
}

#[test]
fn request_is_read_out_of_its_payload() {
    let mut mgr = connected();
    let payload = json(
        r#"{"requestId":"r1","method":"POST","path":"/a?b","port":65537,
            "headers":{"Accept":"*/*","X-Number":1}}"#,
    );
    let actions = mgr.handle_proxy_request_head(&payload);
    assert!(matches!(
        &actions[..],
        [CloudAction::StartRequest { request_id, method, port: 1, path, headers }]
            if request_id == "r1" && method == "POST" && path == "/a?b"
                && headers == &vec![("Accept".to_string(), "*/*".to_string())]
    ));
}

#[test]
fn request_defaults_are_filled_in() {
    let mut mgr = connected();
    let actions = mgr.handle_proxy_request_head(&json(r#"{"requestId":"r1","port":80}"#));
    assert!(matches!(
        &actions[..],
        [CloudAction::StartRequest { method, path, .. }] if method == "GET" && path == "/"
    ));
}

#[test]
fn invalid_request_is_refused() {
    let bad = [
        r#"{"port":80}"#,
        r#"{"requestId":"r1"}"#,
        r#"{"requestId":"r1","port":65536}"#,
        r#"{"requestId":"r1","port":-1}"#,
        r#"{"requestId":"","port":80}"#,
    ];
    for payload in bad {
        let mut mgr = connected();
        let v = sent_json(&mgr.handle_proxy_request_head(&json(payload)));
        assert_eq!(v["type"], "proxy.response.error");
        assert_eq!(v["payload"]["message"], "invalid port or requestId");
        let v = sent_json(&mgr.handle_proxy_ws_upgrade(&json(payload)));
        assert_eq!(v["type"], "proxy.ws.error");
        assert_eq!(v["payload"]["message"], "invalid port or requestId");
        assert_eq!(under_way(&mut mgr), 0);
    }
}

#[test]
fn cancelled_request_is_stopped() {
    let mut mgr = connected();
    start_request(&mut mgr, "r1");
    let cancel = json(r#"{"type":"proxy.request.cancel","payload":{"requestId":"r1"}}"#);
    let actions = mgr.handle_ws_text(&cancel);
    assert!(matches!(&actions[..], [CloudAction::Stop(Task::Request(id))] if id == "r1"));
    assert!(mgr.handle_ws_text(&cancel).is_empty());
}

#[test]
fn cloud_ends_a_socket_with_a_goodbye() {
    let mut mgr = connected();
    mgr.handle_proxy_ws_upgrade(&json(r#"{"requestId":"ws1","port":3000}"#));
    let data = encode_ws_binary_frame("ws1", WS_SUBTYPE_TEXT, b"hi");
    let actions = mgr.handle_ws_binary(&data);
    assert!(matches!(
        &actions[..],
        [CloudAction::ToSocket {
            request_id,
            message: WsWriteMsg::Data { is_text: true, payload },
            wait: false,
        }] if request_id == "ws1" && payload == b"hi"
    ));
    let close = json(r#"{"type":"proxy.ws.close","payload":{"requestId":"ws1","reason":"bye"}}"#);
    let actions = mgr.handle_ws_text(&close);
    assert!(matches!(
        &actions[..],
        [
            CloudAction::ToSocket {
                message: WsWriteMsg::Close { code: 1000, reason },
                wait: true,
                ..
            },
            CloudAction::Stop(Task::Socket(id)),
        ] if reason == "bye" && id == "ws1"
    ));
    assert!(mgr.handle_ws_text(&close).is_empty());
    assert!(mgr.handle_ws_binary(&data).is_empty());
}

#[test]
fn exposure_is_answered_once() {
    let mut mgr = connected();
    expose(&mut mgr, 3000, false);
    let ok = json(r#"{"type":"proxy.expose.ok","payload":{"port":3000,"url":"https://x/p"}}"#);
    let actions = mgr.handle_ws_text(&ok);
    assert!(matches!(
        &actions[..],
        [CloudAction::ReplyExpose { port: 3000, result: Ok(url) }] if url == "https://x/p"
    ));
    assert!(mgr.handle_ws_text(&ok).is_empty());
    let step = mgr.handle_cmd(CloudCommand::ProxyList, Err("no matter".into()));
    match step {
        CloudStep::ReplyPorts(list) => {
            assert_eq!(list.len(), 1);
            assert_eq!(list[0].port, 3000);
            assert!(!list[0].public);
            assert_eq!(list[0].url.as_deref(), Some("https://x/p"));
        }
        _ => panic!("expected a list"),
    }
}

#[test]
fn refused_exposure_is_taken_back() {
    let mut mgr = connected();
    expose(&mut mgr, 3000, true);
    let refused = json(r#"{"type":"proxy.expose.error","payload":{"port":3000}}"#);
    let actions = mgr.handle_ws_text(&refused);
    assert!(matches!(
        &actions[..],
        [CloudAction::ReplyExpose { port: 3000, result: Err(e) }] if e == "unknown error"
    ));
    let step = mgr.handle_cmd(CloudCommand::ProxyUnexpose { port: 3000 }, Ok(()));
    assert!(matches!(step, CloudStep::Reply(Err(e)) if e == "port 3000 is not exposed"));
}

#[test]
fn web_client_asks_for_terminals() {
    let mut mgr = connected();
    share(&mut mgr, "t1", None);
    let create = json(r#"{"type":"terminal.create","payload":{"name":"dev"}}"#);
    assert!(matches!(
        &mgr.handle_ws_text(&create)[..],
        [CloudAction::CreateTerminal { name: Some(n) }] if n == "dev"
    ));
    let kill = json(r#"{"type":"terminal.kill","payload":{"terminalId":"t1"}}"#);
    assert!(matches!(
        &mgr.handle_ws_text(&kill)[..],
        [CloudAction::KillTerminal { id, shared: true }] if id == "t1"
    ));
    let kill = json(r#"{"type":"terminal.kill","payload":{"terminalId":"t9"}}"#);
    assert!(matches!(
        &mgr.handle_ws_text(&kill)[..],
        [CloudAction::KillTerminal { shared: false, .. }]
    ));
    let attach = json(r#"{"type":"terminal.web-attach","payload":{"terminalId":"t1"}}"#);
    assert_eq!(mgr.handle_ws_text(&attach).len(), 2);
    for other in [
        r#"{"type":"terminal.web-detach","payload":{"terminalId":"t1"}}"#,
        r#"{"type":"terminal.web-attach","payload":{}}"#,
        r#"{"type":"terminal.kill"}"#,
        r#"{"type":"proxy.request.end"}"#,
        r#"{"type":7}"#,
        r#"[]"#,
    ] {
        assert!(mgr.handle_ws_text(&json(other)).is_empty());
    }
}

#[test]
fn web_client_is_told_how_it_went() {
    let mgr = connected();
    let v = sent_json(&mgr.handle_web_create(CreateOutcome::Refused("no pty".into())));
    assert_eq!((&v["type"], &v["payload"]["message"]), (&json("\"error\""), &json("\"no pty\"")));
    let v = sent_json(&mgr.handle_web_create(CreateOutcome::Shared {
        id: "t1".into(),
        name: None,
    }));
    assert_eq!(v["type"], "terminal.created");
    assert_eq!(v["payload"], json(r#"{"terminalId":"t1","name":null}"#));
    let v = sent_json(&mgr.handle_web_create(CreateOutcome::Shared {
        id: "t1".into(),
        name: Some("dev".into()),
    }));
    assert_eq!(v["payload"]["name"], "dev");
    assert!(mgr.handle_web_create(CreateOutcome::NotShared).is_empty());
    let v = sent_json(&mgr.handle_web_kill("t1", true));
    assert_eq!(v["type"], "terminal.killed");
    assert!(mgr.handle_web_kill("t1", false).is_empty());
}

#[test]
fn addresses_of_the_cloud() {
    assert_eq!(websocket_url("https://app.kex.dev"), "wss://app.kex.dev/api/ws/device");
    assert_eq!(websocket_url("http://localhost:3000"), "ws://localhost:3000/api/ws/device");
    assert_eq!(websocket_url("app"), "app/api/ws/device");
}

#[test]
fn connecting_goes_step_by_step() {
    let mut mgr = CloudManager::new();
    share(&mut mgr, "t1", None);
    let cred = cred();
    let (step, _) = mgr.ensure_connected(&cred, ConnectEvent::Begin);
    assert!(
        matches!(step, ConnectStep::Dial { url } if url == "wss://app.kex.dev/api/ws/device")
    );
    let (step, _) = mgr.ensure_connected(&cred, ConnectEvent::Dialed(Ok(())));
    match step {
        ConnectStep::SendAuth { text } => {
            let v = json(&text);
            assert_eq!(v["type"], "auth");
            assert_eq!(v["payload"]["token"], "abc");
        }
        _ => panic!("expected the token to be sent"),
    }
    let (step, _) = mgr.ensure_connected(&cred, ConnectEvent::AuthSent(Ok(())));
    assert!(matches!(step, ConnectStep::AwaitAnswer));
    assert!(!mgr.is_connected());
    let answer = Incoming::Text(r#"{"v":1,"type":"auth.ok","payload":{}}"#.into());
    let (step, _) = mgr.ensure_connected(&cred, ConnectEvent::Answer(answer));
    match step {
        ConnectStep::SendStatus { text } => {
            assert_eq!(json(&text)["payload"]["syncedTerminals"], json(r#"[{"id":"t1"}]"#));
        }
        _ => panic!("expected the status to be sent"),
    }
    assert!(mgr.is_connected());
    let (step, _) = mgr.ensure_connected(&cred, ConnectEvent::StatusSent(Ok(())));
    assert!(matches!(step, ConnectStep::Done(Ok(()))));
    let (step, _) = mgr.ensure_connected(&cred, ConnectEvent::Begin);
    assert!(matches!(step, ConnectStep::Done(Ok(()))));
}

fn over(mgr: &mut CloudManager, event: ConnectEvent) -> String {
    match advance(mgr, event).0 {
        ConnectStep::Done(Err(e)) => e,
        other => panic!("expected a failure, got {other:?}"),
    }
}

#[test]
fn failed_dials_wait_longer_and_longer() {
    let mut mgr = CloudManager::new();
    let mut waits = vec![mgr.backoff()];
    for _ in 0..6 {
        advance(&mut mgr, ConnectEvent::Begin);
        let e = over(&mut mgr, ConnectEvent::Dialed(Err("refused".into())));
        assert_eq!(e, "WebSocket connect failed: refused");
        waits.push(mgr.backoff());
    }
    assert_eq!(waits, vec![1, 2, 4, 8, 16, 30, 30]);
    connect(&mut mgr);
    assert_eq!(mgr.backoff(), 1);
}

#[test]
fn failed_handshakes_are_described() {
    let mut mgr = CloudManager::new();
    call(&mut mgr);
    assert_eq!(
        over(&mut mgr, ConnectEvent::AuthSent(Err("broken".into()))),
        "auth send failed: broken"
    );
    let cases = [
        (Incoming::Timeout, "auth timeout"),
        (Incoming::Closed, "connection closed during auth"),
        (Incoming::Failed("eof".into()), "auth read failed: eof"),
        (Incoming::Other, "unexpected non-text auth response"),
        (
            Incoming::Text(r#"{"type":"auth.error","payload":{"message":"bad token"}}"#.into()),
            "auth failed: bad token",
        ),
        (Incoming::Text(r#"{"type":"auth.error"}"#.into()), "auth failed: unknown"),
        (Incoming::Text(r#"{"type":"hello"}"#.into()), "unexpected auth response: hello"),
        (Incoming::Text("{}".into()), "unexpected auth response: "),
    ];
    for (incoming, want) in cases {
        call(&mut mgr);
        advance(&mut mgr, ConnectEvent::AuthSent(Ok(())));
        assert_eq!(over(&mut mgr, ConnectEvent::Answer(incoming)), want);
        assert!(!mgr.is_connected());
    }
    call(&mut mgr);
    advance(&mut mgr, ConnectEvent::AuthSent(Ok(())));
    let e = over(&mut mgr, ConnectEvent::Answer(Incoming::Text("{".into())));
    let reason = serde_json::from_str::<Value>("{").unwrap_err().to_string();
    assert_eq!(e, format!("invalid auth response: {reason}"));
    assert_eq!(read_admission(Incoming::Text(r#"{"type":"auth.ok"}"#.into())), Ok(()));
    assert_eq!(check_admission(&json(r#"{"type":"auth.ok"}"#)), Ok(()));
}

#[test]
fn lost_status_drops_the_connection() {
    let mut mgr = CloudManager::new();
    call(&mut mgr);
    advance(&mut mgr, ConnectEvent::AuthSent(Ok(())));
    let answer = Incoming::Text(r#"{"type":"auth.ok"}"#.into());
    advance(&mut mgr, ConnectEvent::Answer(answer));
    start_request(&mut mgr, "r1");
    let (step, actions) =
        advance(&mut mgr, ConnectEvent::StatusSent(Err("send failed: x".into())));
    assert!(matches!(step, ConnectStep::Done(Err(e)) if e == "send failed: x"));
    assert!(matches!(&actions[..], [CloudAction::Stop(Task::Request(id))] if id == "r1"));
    assert!(!mgr.is_connected());
}

#[test]
fn answers_are_read_or_described() {
    assert_eq!(ws_recv_text(Incoming::Text("[1]".into())).unwrap(), json("[1]"));
    assert_eq!(ws_recv_text(Incoming::Timeout), Err("response timeout".into()));
    assert_eq!(ws_recv_text(Incoming::Closed), Err("connection closed".into()));
    assert_eq!(ws_recv_text(Incoming::Failed("x".into())), Err("read failed: x".into()));
    assert_eq!(ws_recv_text(Incoming::Other), Err("unexpected non-text response".into()));
    assert!(ws_recv_text(Incoming::Text("nope".into()))
        .unwrap_err()
        .starts_with("invalid response: "));
    assert_eq!(check_consent(&json(r#"{"type":"terminal.sync.ok"}"#)), Ok(()));
    assert_eq!(
        check_consent(&json(r#"{"type":"error","payload":{"message":"full"}}"#)),
        Err("full".into())
    );
    assert_eq!(
        check_consent(&json(r#"{"type":"auth.error"}"#)),
        Err("unknown error".into())
    );
}

#[test]
fn consent_is_asked_for() {
    let mut mgr = connected();
    let (r, actions) = mgr.send_and_confirm(ConfirmEvent::NotConnected("refused".into()));
    assert_eq!((r, actions.len()), (Err("refused".into()), 0));
    assert!(mgr.is_connected());
    let (r, _) = mgr.send_and_confirm(ConfirmEvent::Answer(Incoming::Text(
        r#"{"type":"error","payload":{"message":"no"}}"#.into(),
    )));
    assert_eq!(r, Err("no".into()));
    assert!(mgr.is_connected());
    let (r, _) = mgr.send_and_confirm(ConfirmEvent::Answer(Incoming::Text("{}".into())));
    assert_eq!(r, Ok(()));
    let (r, _) = mgr.send_and_confirm(ConfirmEvent::Answer(Incoming::Timeout));
    assert_eq!(r, Err("response timeout".into()));
    assert!(!mgr.is_connected());
    let mut mgr = connected();
    let (r, _) = mgr.send_and_confirm(ConfirmEvent::NotSent("send failed: x".into()));
    assert_eq!(r, Err("send failed: x".into()));
    assert!(!mgr.is_connected());
}

#[test]
fn refused_share_is_forgotten() {
    let mut mgr = CloudManager::new();
    let cmd = CloudCommand::Sync { id: "t1".into(), name: Some("dev".into()) };
    let (text, then_do) = match mgr.handle_cmd(cmd, Ok(())) {
        CloudStep::Confirm { text, then_do } => (text, then_do),
        _ => panic!("expected a question to the cloud"),
    };
    let v = json(&text);
    assert_eq!(v["type"], "terminal.sync");
    assert_eq!(v["payload"], json(r#"{"terminalId":"t1","name":"dev"}"#));
    assert_eq!(mgr.synced_ids(), vec!["t1".to_string()]);
    let (step, _) = mgr.resume(then_do, Err("full".into()), 0);
    assert!(matches!(step, CloudStep::Reply(Err(e)) if e == "full"));
    assert!(mgr.synced_ids().is_empty());
}

#[test]
fn last_terminal_arms_the_farewell() {
    let mut mgr = connected();
    share(&mut mgr, "t1", None);
    share(&mut mgr, "t2", None);
    assert_eq!(mgr.disconnect_due(), None);
    let (text, then_do) = match mgr.handle_cmd(CloudCommand::Unsync { id: "t1".into() }, Ok(())) {
        CloudStep::Confirm { text, then_do } => (text, then_do),
        _ => panic!("expected a question to the cloud"),
    };
    assert_eq!(json(&text)["type"], "terminal.unsync");
    let (_, actions) = mgr.resume(then_do, Ok(()), 100);
    assert!(matches!(&actions[..], [CloudAction::StopReader(id)] if id == "t1"));
    assert_eq!(mgr.disconnect_due(), None);
    let exited = TerminalEvent::Exited { id: "t2".into() };
    let v = sent_json(&mgr.handle(LinkEvent::Terminal(exited), 200));
    assert_eq!(v["type"], "terminal.exited");
    assert_eq!(mgr.disconnect_due(), Some(230));
    assert!(mgr.synced_ids().is_empty());
    share(&mut mgr, "t3", None);
    assert_eq!(mgr.disconnect_due(), None);
}

#[test]
fn farewell_closes_the_connection() {
    let mut mgr = connected();
    share(&mut mgr, "t1", None);
    mgr.handle_terminal_exited("t1", 5);
    assert_eq!(mgr.disconnect_due(), Some(35));
    let actions = mgr.handle(LinkEvent::DisconnectDue, 35);
    assert!(matches!(&actions[..], [CloudAction::Close]));
    assert!(!mgr.is_connected());
    assert_eq!(mgr.disconnect_due(), None);
    assert!(mgr.handle_terminal_exited("t1", 6).is_empty());
}

#[test]
fn exposing_a_port_goes_step_by_step() {
    let mut mgr = connected();
    let cmd = CloudCommand::ProxyExpose { port: 3000, public: true };
    let then_do = match mgr.handle_cmd(cmd, Ok(())) {
        CloudStep::Connect { then_do } => then_do,
        _ => panic!("expected a connection to be sought"),
    };
    let (text, then_do) = match mgr.resume(then_do, Ok(()), 0).0 {
        CloudStep::Send { text, then_do } => (text, then_do),
        _ => panic!("expected a message"),
    };
    assert_eq!(json(&text)["payload"], json(r#"{"port":3000,"public":true}"#));
    let (step, actions) = mgr.resume(then_do, Err("send failed: x".into()), 0);
    assert!(matches!(step, CloudStep::Wait));
    assert!(matches!(
        &actions[..],
        [CloudAction::ReplyExpose { port: 3000, result: Err(e) }] if e == "connection lost"
    ));
    assert!(!mgr.is_connected());
    let refused = mgr.handle_cmd(
        CloudCommand::ProxyExpose { port: 1, public: false },
        Err("not logged in".into()),
    );
    assert!(matches!(refused, CloudStep::ReplyUrl(Err(e)) if e == "not logged in"));
}

#[test]
fn taking_a_port_back_goes_step_by_step() {
    let mut mgr = connected();
    expose(&mut mgr, 3000, false);
    let then_do = match mgr.handle_cmd(CloudCommand::ProxyUnexpose { port: 3000 }, Ok(())) {
        CloudStep::Connect { then_do } => then_do,
        _ => panic!("expected a connection to be sought"),
    };
    let (text, then_do) = match mgr.resume(then_do, Ok(()), 0).0 {
        CloudStep::Send { text, then_do } => (text, then_do),
        _ => panic!("expected a message"),
    };
    assert_eq!(json(&text)["type"], "proxy.unexpose");
    assert_eq!(json(&text)["payload"]["port"], 3000);
    assert!(matches!(mgr.resume(then_do, Ok(()), 0).0, CloudStep::Reply(Ok(()))));
    assert!(matches!(
        mgr.handle_cmd(CloudCommand::ProxyUnexpose { port: 3000 }, Ok(())),
        CloudStep::Reply(Err(_))
    ));
}

#[test]
fn nothing_is_sent_without_a_connection() {
    let mut mgr = CloudManager::new();
    share(&mut mgr, "t1", None);
    let output = TerminalEvent::Output { id: "t1".into(), data: b"x".to_vec() };
    assert!(mgr.handle(LinkEvent::Terminal(output), 0).is_empty());
    assert!(mgr.handle_web_attach("t1").is_empty());
    assert!(mgr.handle_web_kill("t1", true).is_empty());
    let bad = r#"{"type":"proxy.request.head","payload":{}}"#;
    assert!(mgr.handle(LinkEvent::Text(bad.into()), 0).is_empty());
}

#[test]
fn messages_that_are_no_json_change_nothing() {
    let mut mgr = connected();
    assert!(mgr.handle(LinkEvent::Text("{".into()), 0).is_empty());
    assert!(mgr.handle(LinkEvent::OtherMessage, 0).is_empty());
    assert!(mgr.handle(LinkEvent::Binary(vec![1, 2]), 0).is_empty());
    assert!(mgr.is_connected());
    assert!(mgr.handle(LinkEvent::HeartbeatFailed, 0).is_empty());
    assert!(!mgr.is_connected());
}

#[test]
fn lost_connection_stops_what_is_under_way() {
    let mut mgr = connected();
    start_request(&mut mgr, "r1");
    mgr.handle_proxy_ws_upgrade(&json(r#"{"requestId":"w1","port":3000}"#));
    let actions = mgr.handle(LinkEvent::Ended, 0);
    assert!(matches!(
        &actions[..],
        [CloudAction::Stop(Task::Request(r)), CloudAction::Stop(Task::Socket(w))]
            if r == "r1" && w == "w1"
    ));
    assert!(!mgr.is_connected());
    assert_eq!(under_way(&mut mgr), 0);
}

#[test]
fn size_without_rows_or_columns_is_recognised() {
    assert!(gives_no_size(&encode_binary_frame("t", 0x02, &[0, 0, 0, 5])));
    assert!(gives_no_size(&encode_binary_frame("t", 0x02, &[0, 5, 0, 0])));
    assert!(!gives_no_size(&encode_binary_frame("t", 0x02, &[0, 5, 0, 5])));
    assert!(!gives_no_size(&encode_binary_frame("t", 0x02, &[0, 0, 0])));
    assert!(!gives_no_size(&encode_binary_frame("t", 0x01, &[0, 0, 0, 0])));
    assert!(!gives_no_size(&[]));
}

#[test]
fn size_for_a_terminal_that_is_not_shared_changes_nothing() {
    let mut mgr = connected();
    share(&mut mgr, "t1", None);
    let data = encode_binary_frame("t2", 0x02, &[0, 0, 0, 5]);
    assert!(mgr.handle(LinkEvent::Binary(data), 0).is_empty());
    let snapshot = mgr.handle_web_attach("t1");
    assert_eq!(sent_json(&snapshot[..1])["payload"]["rows"], 24);
    assert_eq!(sent_json(&snapshot[..1])["payload"]["cols"], 80);
}

#[test]
fn offline_link_stays_offline() {
    let mut mgr = CloudManager::new();
    share(&mut mgr, "t1", None);
    let admission = envelope("auth.ok", json("{}"));
    mgr.handle(LinkEvent::Text(admission), 0);
    mgr.handle(LinkEvent::Terminal(TerminalEvent::Exited { id: "t1".into() }), 0);
    mgr.handle(LinkEvent::DisconnectDue, 30);
    assert!(!mgr.is_connected());
    assert_eq!(mgr.disconnect_due(), None);
}

#[test]
fn shared_terminals_are_remembered_until_they_go() {
    let mut mgr = connected();
    share(&mut mgr, "t1", None);
    share(&mut mgr, "t2", Some("dev"));
    assert_eq!(mgr.synced_ids(), vec!["t1", "t2"]);
    mgr.handle(LinkEvent::Ended, 0);
    assert_eq!(mgr.synced_ids(), vec!["t1", "t2"]);
    mgr.resume(Pending::Unsync { id: "t1".into() }, Ok(()), 0);
    assert_eq!(mgr.synced_ids(), vec!["t2"]);
    mgr.handle(LinkEvent::Terminal(TerminalEvent::Exited { id: "t2".into() }), 0);
    assert!(mgr.synced_ids().is_empty());
}

#[test]
fn share_that_is_refused_again_is_forgotten_but_shown() {
    let mut mgr = connected();
    share(&mut mgr, "t1", None);
    mgr.resume(Pending::Sync { id: "t1".into(), name: None }, Err("full".into()), 0);
    assert!(mgr.synced_ids().is_empty());
    assert_eq!(mgr.handle_web_attach("t1").len(), 2);
}

#[test]
fn terminals_tell_what_they_can_follow() {
    let mut mgr = connected();
    share(&mut mgr, "t1", None);
    let output = |id: &str, data: &[u8]| {
        LinkEvent::Terminal(TerminalEvent::Output { id: id.into(), data: data.to_vec() })
    };
    let wide = "\x1b[1;40H你";
    assert!(mgr.can_follow(&output("t1", wide.as_bytes())));
    mgr.handle(output("t1", wide.as_bytes()), 0);
    let resize = |cols: u8, rows: u8| {
        LinkEvent::Binary(encode_binary_frame("t1", 0x02, &[0, cols, 0, rows]))
    };
    assert!(!mgr.can_follow(&resize(80, 0)));
    assert!(mgr.try_handle(resize(80, 0), 0).is_none());
    mgr.handle(resize(41, 24), 0);
    assert!(mgr.can_follow(&output("t1", b"a")));
    assert!(mgr.try_handle(resize(40, 24), 0).is_some());
    assert!(!mgr.can_follow(&output("t1", b"a")));
    assert!(mgr.try_handle(output("t1", b"a"), 0).is_none());
    assert!(mgr.can_follow(&output("t2", b"a")));
    assert!(mgr.can_follow(&LinkEvent::Ended));
}

#[test]
fn handshake_comes_in_order() {
    let mut mgr = CloudManager::new();
    let admitted = || ConnectEvent::Answer(Incoming::Text(r#"{"type":"auth.ok"}"#.into()));
    assert!(!mgr.awaits(&admitted()));
    assert!(!mgr.awaits(&ConnectEvent::AuthSent(Ok(()))));
    assert!(!mgr.awaits(&ConnectEvent::Dialed(Ok(()))));
    assert!(!mgr.awaits(&ConnectEvent::StatusSent(Ok(()))));
    call(&mut mgr);
    assert!(!mgr.awaits(&admitted()));
    advance(&mut mgr, ConnectEvent::AuthSent(Ok(())));
    assert!(mgr.awaits(&admitted()));
    advance(&mut mgr, ConnectEvent::Begin);
    assert!(!mgr.awaits(&admitted()));
    connect(&mut mgr);
    assert!(!mgr.awaits(&admitted()));
}
