use kex::error::KexError;
use kex::ipc::codec::{
    complete_frame, control_payload, frame_header, message_len, read_binary_frame,
    read_control_frame, read_message, write_binary_frame, write_control_frame, write_message,
};
use kex::ipc::message::BinaryFrame;
use serde_json::Value;

fn through_message(json: &str) -> Value {
    let mut stream = Vec::new();
    write_message(&mut stream, json.as_bytes());
    assert_eq!(&stream[..4], &(json.len() as u32).to_be_bytes());
    let read = read_message(&stream).unwrap();
    serde_json::from_slice(&read).unwrap()
}

fn through_frame(id: &str, frame: BinaryFrame) -> (String, BinaryFrame) {
    let mut stream = Vec::new();
    write_binary_frame(&mut stream, id, &frame);
    let (tid, decoded, used) = read_binary_frame(&stream).unwrap();
    assert_eq!(used, stream.len());
    (tid, decoded)
}

fn ipc_error<T>(r: Result<T, KexError>) -> String {
    match r {
        Err(KexError::Ipc(text)) => text,
        _ => panic!("expected an IPC error"),
    }
}

fn io_error<T>(r: Result<T, KexError>) -> String {
    match r {
        Err(KexError::Io(text)) => text,
        _ => panic!("expected an I/O error"),
    }
}

#[test]
fn roundtrip_request() {
    let v = through_message(r#"{"TerminalCreate":{"name":"test"}}"#);
    assert_eq!(v["TerminalCreate"]["name"], "test");
}

#[test]
fn roundtrip_response() {
    let v = through_message(r#"{"TerminalCreated":{"id":"abc123"}}"#);
    assert_eq!(v["TerminalCreated"]["id"], "abc123");
}

#[test]
fn roundtrip_view_update_layout() {
    let v = through_message(
        r#"{"ViewUpdateLayout":{"view_id":"v1","layout":{"type":"leaf","terminal_id":"t1"},"focused":"t1"}}"#,
    );
    assert_eq!(v["ViewUpdateLayout"]["view_id"], "v1");
    assert_eq!(v["ViewUpdateLayout"]["focused"], "t1");
}

#[test]
fn roundtrip_view_remove_terminal() {
    let v = through_message(r#"{"ViewRemoveTerminal":{"view_id":"v1","terminal_id":"t1"}}"#);
    assert_eq!(v["ViewRemoveTerminal"]["view_id"], "v1");
    assert_eq!(v["ViewRemoveTerminal"]["terminal_id"], "t1");
}

#[test]
fn roundtrip_view_attach_with_layout() {
    let v = through_message(
        r#"{"ViewAttach":{"terminal_ids":["t1","t2"],"layout":{"type":"split"},"focused":"t2"}}"#,
    );
    assert_eq!(v["ViewAttach"]["terminal_ids"].as_array().unwrap().len(), 2);
    assert_eq!(v["ViewAttach"]["focused"], "t2");
    assert!(v["ViewAttach"]["layout"].is_object());
}

#[test]
fn binary_frame_roundtrip_data() {
    let (tid, decoded) = through_frame("abcd1234", BinaryFrame::Data(vec![1, 2, 3, 4]));
    assert_eq!(tid, "abcd1234");
    assert_eq!(decoded, BinaryFrame::Data(vec![1, 2, 3, 4]));
}

#[test]
fn binary_frame_roundtrip_resize() {
    let (tid, decoded) = through_frame("term0001", BinaryFrame::Resize { cols: 120, rows: 40 });
    assert_eq!(tid, "term0001");
    assert_eq!(decoded, BinaryFrame::Resize { cols: 120, rows: 40 });
}

#[test]
fn binary_frame_roundtrip_detach() {
    let (tid, decoded) = through_frame("t1234567", BinaryFrame::Detach);
    assert_eq!(tid, "t1234567");
    assert_eq!(decoded, BinaryFrame::Detach);
}

#[test]
fn binary_frame_empty_data() {
    let (_, decoded) = through_frame("abcd1234", BinaryFrame::Data(vec![]));
    assert_eq!(decoded, BinaryFrame::Data(vec![]));
}

#[test]
fn binary_frame_roundtrip_control() {
    let payload = b"{\"test\":true}".to_vec();
    let (tid, decoded) =
        through_frame("\0\0\0\0\0\0\0\0", BinaryFrame::Control(payload.clone()));
    assert_eq!(tid, "");
    assert_eq!(decoded, BinaryFrame::Control(payload));
}

#[test]
fn control_frame_mux_request_roundtrip() {
    let mut stream = Vec::new();
    write_control_frame(&mut stream, br#"{"CreateTerminal":{"name":"dev"}}"#.to_vec());
    let v: Value = serde_json::from_slice(&read_control_frame(&stream).unwrap()).unwrap();
    assert_eq!(v["CreateTerminal"]["name"], "dev");
}

#[test]
fn control_frame_mux_response_roundtrip() {
    let mut stream = Vec::new();
    write_control_frame(&mut stream, br#"{"TerminalCreated":{"id":"t1"}}"#.to_vec());
    let v: Value = serde_json::from_slice(&read_control_frame(&stream).unwrap()).unwrap();
    assert_eq!(v["TerminalCreated"]["id"], "t1");
}

#[test]
fn control_frame_empty_json() {
    let (_, decoded) = through_frame("\0\0\0\0\0\0\0\0", BinaryFrame::Control(b"{}".to_vec()));
    assert_eq!(decoded, BinaryFrame::Control(b"{}".to_vec()));
}

#[test]
fn roundtrip_multiplex_attach() {
    let v = through_message(r#"{"MultiplexAttach":{"terminal_ids":["t1","t2"],"view_id":"v1"}}"#);
    assert_eq!(v["MultiplexAttach"]["terminal_ids"].as_array().unwrap().len(), 2);
    assert_eq!(v["MultiplexAttach"]["view_id"], "v1");
}

#[test]
fn frame_layout_is_byte_exact() {
    let mut stream = vec![9];
    write_binary_frame(&mut stream, "ab", &BinaryFrame::Resize { cols: 258, rows: 3 });
    assert_eq!(
        stream,
        vec![9, 2, b'a', b'b', 0, 0, 0, 0, 0, 0, 0, 0, 0, 4, 1, 2, 0, 3]
    );
}

#[test]
fn frames_follow_each_other() {
    let mut stream = Vec::new();
    write_binary_frame(&mut stream, "one", &BinaryFrame::Data(vec![7]));
    write_binary_frame(&mut stream, "two", &BinaryFrame::Detach);
    let (tid, first, used) = read_binary_frame(&stream).unwrap();
    assert_eq!((tid.as_str(), first), ("one", BinaryFrame::Data(vec![7])));
    let (tid, second, _) = read_binary_frame(&stream[used..]).unwrap();
    assert_eq!((tid.as_str(), second), ("two", BinaryFrame::Detach));
}

#[test]
fn long_identifier_is_cut() {
    let (tid, _) = through_frame("abcdefghij", BinaryFrame::Detach);
    assert_eq!(tid, "abcdefgh");
}

#[test]
fn identifier_that_is_no_text_is_empty() {
    let mut stream = vec![3, 0xff, b'a', 0, 0, 0, 0, 0, 0, 0, 0, 0, 0];
    let (tid, frame, _) = read_binary_frame(&stream).unwrap();
    assert_eq!((tid.as_str(), frame), ("", BinaryFrame::Detach));
    stream[1] = b'b';
    assert_eq!(read_binary_frame(&stream).unwrap().0, "ba");
}

#[test]
fn message_too_large_is_refused() {
    let head = (16 * 1024 * 1024 + 1u32).to_be_bytes();
    assert_eq!(ipc_error(read_message(&head)), "message too large: 16777217 bytes");
    assert_eq!(ipc_error(message_len(&head)), "message too large: 16777217 bytes");
    assert_eq!(message_len(&(16 * 1024 * 1024u32).to_be_bytes()).unwrap(), 16 * 1024 * 1024);
}

#[test]
fn frame_too_large_is_refused() {
    let mut head = vec![1, 0, 0, 0, 0, 0, 0, 0, 0];
    head.extend_from_slice(&20_000_000u32.to_be_bytes());
    assert_eq!(ipc_error(read_binary_frame(&head)), "frame too large: 20000000 bytes");
}

#[test]
fn resize_of_wrong_length_is_refused() {
    let mut head = vec![2, 0, 0, 0, 0, 0, 0, 0, 0];
    head.extend_from_slice(&3u32.to_be_bytes());
    assert_eq!(ipc_error(read_binary_frame(&head)), "resize frame expects 4 bytes, got 3");
}

#[test]
fn unknown_frame_type_is_refused() {
    let mut head = vec![0xab, 0, 0, 0, 0, 0, 0, 0, 0];
    head.extend_from_slice(&0u32.to_be_bytes());
    assert_eq!(ipc_error(read_binary_frame(&head)), "unknown frame type: 0xab");
    head[0] = 5;
    assert_eq!(ipc_error(frame_header(&head)), "unknown frame type: 0x5");
}

#[test]
fn early_end_is_reported() {
    assert_eq!(io_error(read_message(&[0, 0])), "early eof");
    assert_eq!(io_error(read_message(&[0, 0, 0, 2, b'x'])), "early eof");
    assert_eq!(io_error(read_binary_frame(&[1])), "early eof");
    let mut stream = Vec::new();
    write_binary_frame(&mut stream, "t", &BinaryFrame::Data(vec![1, 2]));
    stream.pop();
    assert_eq!(io_error(read_binary_frame(&stream)), "early eof");
}

#[test]
fn other_frame_in_place_of_control_is_described() {
    let describe = |frame| ipc_error(control_payload(frame));
    assert_eq!(describe(BinaryFrame::Detach), "expected Control frame, got Detach");
    assert_eq!(
        describe(BinaryFrame::Data(vec![1, 20, 255])),
        "expected Control frame, got Data([1, 20, 255])"
    );
    assert_eq!(
        describe(BinaryFrame::Data(vec![])),
        "expected Control frame, got Data([])"
    );
    assert_eq!(
        describe(BinaryFrame::Resize { cols: 80, rows: 24 }),
        "expected Control frame, got Resize { cols: 80, rows: 24 }"
    );
    let mut stream = Vec::new();
    write_binary_frame(&mut stream, "t", &BinaryFrame::Detach);
    assert_eq!(
        ipc_error(read_control_frame(&stream)),
        "expected Control frame, got Detach"
    );
}

#[test]
fn frame_is_completed_from_its_parts() {
    let mut stream = Vec::new();
    write_binary_frame(&mut stream, "t9", &BinaryFrame::Control(vec![4, 5]));
    let header = frame_header(&stream[..13]).unwrap();
    assert_eq!((header.terminal_id.as_str(), header.kind, header.to_read), ("t9", 0x10, 2));
    let frame = complete_frame(&header, stream[13..].to_vec());
    assert_eq!(frame, BinaryFrame::Control(vec![4, 5]));
}

#[test]
fn detach_reads_no_payload() {
    let mut stream = vec![3, 0, 0, 0, 0, 0, 0, 0, 0];
    stream.extend_from_slice(&2u32.to_be_bytes());
    stream.extend_from_slice(&[8, 9]);
    let (_, frame, used) = read_binary_frame(&stream).unwrap();
    assert_eq!((frame, used), (BinaryFrame::Detach, 13));
}
