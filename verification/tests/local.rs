use kex::cloud::local::{
    group_headers, is_hop_by_hop, is_of_handshake, local_request, local_socket, report_request,
    report_socket, socket_message, speak, HttpMethod, ProxyEvent, RequestProgress, RequestReports,
    SocketMessage, SocketProgress,
};
use kex::cloud::proxy::WsWriteMsg;

fn pair(k: &str, v: &str) -> (String, String) {
    (k.to_string(), v.to_string())
}

#[test]
fn request_is_sent_to_this_machine() {
    let headers = vec![
        pair("Host", "x"),
        pair("Accept", "*/*"),
        pair("KEEP-ALIVE", "1"),
        pair("Transfer-Encoding", "chunked"),
        pair("connection", "close"),
        pair("Upgrade", "h2c"),
        pair("Sec-WebSocket-Key", "k"),
    ];
    let request = local_request("DELETE", 3000, "/a/b?c=d", &headers);
    assert_eq!(request.method, HttpMethod::Delete);
    assert_eq!(request.url, "http://127.0.0.1:3000/a/b?c=d");
    assert_eq!(request.headers, vec![pair("Accept", "*/*"), pair("Sec-WebSocket-Key", "k")]);
}

#[test]
fn headers_are_compared_by_unicode_rules() {
    let headers = vec![pair("\u{212A}eep-alive", "1"), pair("X-\u{212A}", "2")];
    let request = local_request("GET", 1, "/", &headers);
    assert_eq!(request.headers, vec![pair("X-\u{212A}", "2")]);
}

#[test]
fn method_names_are_known() {
    let names = [
        ("GET", HttpMethod::Get),
        ("POST", HttpMethod::Post),
        ("PUT", HttpMethod::Put),
        ("DELETE", HttpMethod::Delete),
        ("PATCH", HttpMethod::Patch),
        ("HEAD", HttpMethod::Head),
        ("OPTIONS", HttpMethod::Options),
        ("get", HttpMethod::Get),
        ("BREW", HttpMethod::Get),
    ];
    for (name, method) in names {
        assert_eq!(local_request(name, 1, "/", &vec![]).method, method);
    }
}

#[test]
fn socket_is_opened_on_this_machine() {
    let headers = vec![
        pair("Sec-WebSocket-Version", "13"),
        pair("Sec-WebSocket-Protocol", "chat"),
        pair("Keep-Alive", "1"),
        pair("HOST", "x"),
    ];
    let socket = local_socket(65535, "/ws", &headers);
    assert_eq!(socket.url, "ws://127.0.0.1:65535/ws");
    assert_eq!(
        socket.headers,
        vec![pair("Sec-WebSocket-Protocol", "chat"), pair("Keep-Alive", "1")]
    );
}

#[test]
fn header_kinds_differ() {
    assert!(is_hop_by_hop("keep-alive") && !is_of_handshake("keep-alive"));
    assert!(!is_hop_by_hop("sec-websocket-key") && is_of_handshake("sec-websocket-key"));
    assert!(!is_hop_by_hop("Host") && !is_of_handshake("Host"));
}

#[test]
fn response_headers_are_grouped() {
    let lines = vec![
        ("set-cookie".to_string(), Some("a".to_string())),
        ("etag".to_string(), None),
        ("set-cookie".to_string(), Some("b".to_string())),
    ];
    let table = group_headers(&lines);
    assert_eq!(table.len(), 2);
    assert_eq!(table.get("set-cookie").unwrap().values, vec!["a".to_string(), "b".to_string()]);
    assert_eq!(table.get("etag").unwrap().values, vec![String::new()]);
}

#[test]
fn requests_are_reported_to_their_end() {
    let (event, last) = report_request("r1", RequestProgress::Unanswered("refused".into()));
    assert!(matches!(
        event,
        ProxyEvent::Error { request_id, message }
            if request_id == "r1" && message == "localhost connection failed: refused"
    ));
    assert!(last);
    let (event, last) = report_request(
        "r1",
        RequestProgress::Answered { status: 404, lines: vec![("a".into(), Some("b".into()))] },
    );
    assert!(matches!(event, ProxyEvent::Head { status: 404, headers, .. } if headers.len() == 1));
    assert!(!last);
    let (event, last) = report_request("r1", RequestProgress::Chunk(vec![1]));
    assert!(matches!(event, ProxyEvent::Body { data, .. } if data == vec![1]));
    assert!(!last);
    let (event, last) = report_request("r1", RequestProgress::Broken("eof".into()));
    assert!(matches!(event, ProxyEvent::Error { message, .. } if message == "read error: eof"));
    assert!(last);
    let (event, last) = report_request("r1", RequestProgress::Complete);
    assert!(matches!(event, ProxyEvent::End { request_id } if request_id == "r1"));
    assert!(last);
}

#[test]
fn sockets_are_reported_to_their_end() {
    let error = |progress| match report_socket("w1", progress) {
        (Some(ProxyEvent::WsError { message, .. }), true) => message,
        _ => panic!("expected a last error"),
    };
    assert_eq!(error(SocketProgress::Refused("no".into())), "WS connect failed: no");
    assert_eq!(error(SocketProgress::TimedOut), "WS connect timeout");
    assert!(matches!(
        report_socket("w1", SocketProgress::Opened),
        (Some(ProxyEvent::WsOpen { request_id }), false) if request_id == "w1"
    ));
    assert!(matches!(
        report_socket("w1", SocketProgress::Text("é".into())),
        (Some(ProxyEvent::WsData { is_text: true, data, .. }), false) if data == vec![0xc3, 0xa9]
    ));
    assert!(matches!(
        report_socket("w1", SocketProgress::Binary(vec![7])),
        (Some(ProxyEvent::WsData { is_text: false, data, .. }), false) if data == vec![7]
    ));
    let close = |progress| match report_socket("w1", progress) {
        (Some(ProxyEvent::WsClose { code, reason, .. }), true) => (code, reason),
        _ => panic!("expected a last close"),
    };
    assert_eq!(close(SocketProgress::Goodbye(None)), (1000, String::new()));
    assert_eq!(
        close(SocketProgress::Goodbye(Some((4001, "bye".into())))),
        (4001, "bye".to_string())
    );
    assert_eq!(close(SocketProgress::Lost), (1006, "connection lost".to_string()));
    assert!(matches!(report_socket("w1", SocketProgress::Other), (None, false)));
}

#[test]
fn messages_for_sockets_are_spoken() {
    let data = |is_text, payload: &[u8]| {
        socket_message(WsWriteMsg::Data { is_text, payload: payload.to_vec() })
    };
    assert!(matches!(data(true, b"hi"), SocketMessage::Text(t) if t == "hi"));
    assert!(matches!(data(true, &[b'a', 0xff]), SocketMessage::Text(t) if t == "a\u{fffd}"));
    assert!(matches!(data(false, &[0xff]), SocketMessage::Binary(b) if b == vec![0xff]));
    let close = WsWriteMsg::Close { code: 1001, reason: "away".into() };
    assert!(matches!(
        socket_message(close),
        SocketMessage::Close { code: 1001, reason } if reason == "away"
    ));
    let given = WsWriteMsg::Data { is_text: true, payload: vec![1] };
    assert!(matches!(speak(given, "given".into()), SocketMessage::Text(t) if t == "given"));
}

#[test]
fn requests_are_reported_in_order() {
    let mut reports = RequestReports::new("r1".into());
    assert!(reports.follow(RequestProgress::Complete).is_none());
    assert!(reports.follow(RequestProgress::Chunk(vec![9])).is_none());
    let head = reports.follow(RequestProgress::Answered { status: 200, lines: Vec::new() });
    assert!(matches!(
        head,
        Some(ProxyEvent::Head { request_id, status: 200, .. }) if request_id == "r1"
    ));
    assert!(reports.follow(RequestProgress::Unanswered("late".into())).is_none());
    let mut body = Vec::new();
    for part in [vec![1, 2], vec![3]] {
        match reports.follow(RequestProgress::Chunk(part)) {
            Some(ProxyEvent::Body { request_id, data }) if request_id == "r1" => body.extend(data),
            _ => panic!("expected a part of the body"),
        }
    }
    assert_eq!(body, vec![1, 2, 3]);
    assert!(!reports.is_over());
    let end = reports.follow(RequestProgress::Complete);
    assert!(matches!(end, Some(ProxyEvent::End { request_id }) if request_id == "r1"));
    assert!(reports.is_over());
    assert!(reports.follow(RequestProgress::Chunk(vec![4])).is_none());
    assert!(reports.follow(RequestProgress::Complete).is_none());
}

#[test]
fn failed_requests_end_with_an_error() {
    let mut reports = RequestReports::new("r1".into());
    let event = reports.follow(RequestProgress::Unanswered("refused".into()));
    assert!(matches!(
        event,
        Some(ProxyEvent::Error { message, .. }) if message == "localhost connection failed: refused"
    ));
    assert!(reports.is_over());
    let mut reports = RequestReports::new("r2".into());
    reports.follow(RequestProgress::Answered { status: 200, lines: Vec::new() });
    let event = reports.follow(RequestProgress::Broken("eof".into()));
    assert!(matches!(
        event,
        Some(ProxyEvent::Error { message, .. }) if message == "read error: eof"
    ));
    assert!(reports.is_over());
}
