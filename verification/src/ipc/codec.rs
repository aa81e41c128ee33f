//! How messages and frames are laid out on a socket.
//!
//! A message is four bytes of length and then JSON. A frame is one byte of type,
//! eight bytes of terminal identifier, four bytes of length and the payload.
use vstd::prelude::*;
use vstd::utf8::encode_utf8;

use super::message::{BinaryFrame, Frame};
use crate::error::{Failure, KexError};
use crate::text::{decimal_digits, hex_digits, push_decimal, push_hex, without_nul_tail};
use crate::wire::{
    be16, be16_reads_back, be32, be32_reads_back, bytes_between, from_be16, from_be32, id_field,
    id_in, id_reads_back, length_to_send, numbers_have_the_high_byte_first, push_be16, push_be32,
    push_bytes, push_id, read_be16, read_be32, read_id, sent_length, ID_FIELD,
};

verus! {

/// The longest message and the longest payload of a frame.
pub const MAX_MESSAGE_SIZE: usize = 16 * 1024 * 1024;

/// How many bytes the length of a message has.
pub const LENGTH_SIZE: usize = 4;

/// How many bytes come before the payload of a frame.
pub const HEADER_SIZE: usize = 13;

pub const FRAME_TYPE_DATA: u8 = 0x01;

pub const FRAME_TYPE_RESIZE: u8 = 0x02;

pub const FRAME_TYPE_DETACH: u8 = 0x03;

pub const FRAME_TYPE_CONTROL: u8 = 0x10;

/// The failure of a socket that ends too soon.
pub open spec fn ends_early() -> Failure {
    Failure::Io("early eof"@)
}

/// The failure of a message that is too long.
pub open spec fn message_too_large(len: nat) -> Failure {
    Failure::Ipc("message too large: "@ + decimal_digits(len) + " bytes"@)
}

/// The failure of a frame that is too long.
pub open spec fn frame_too_large(len: nat) -> Failure {
    Failure::Ipc("frame too large: "@ + decimal_digits(len) + " bytes"@)
}

/// The failure of a resize frame whose payload is no size.
pub open spec fn resize_of_wrong_length(len: nat) -> Failure {
    Failure::Ipc("resize frame expects 4 bytes, got "@ + decimal_digits(len))
}

/// The failure of a frame of a type that nobody knows.
pub open spec fn unknown_type(byte: u8) -> Failure {
    Failure::Ipc("unknown frame type: 0x"@ + hex_digits(byte as nat))
}

/// A message on a socket.
pub open spec fn message_bytes(json: Seq<u8>) -> Seq<u8> {
    be32(sent_length(json.len())) + json
}

/// What is read when a socket holds these bytes and then ends: the JSON of the
/// message.
pub open spec fn message_in(bytes: Seq<u8>) -> Result<Seq<u8>, Failure> {
    if bytes.len() < LENGTH_SIZE {
        Err(ends_early())
    } else {
        let len = from_be32(bytes.take(LENGTH_SIZE as int));
        if len > MAX_MESSAGE_SIZE {
            Err(message_too_large(len as nat))
        } else if bytes.len() < LENGTH_SIZE + len {
            Err(ends_early())
        } else {
            Ok(bytes.subrange(LENGTH_SIZE as int, LENGTH_SIZE + len))
        }
    }
}

/// The type byte of a frame.
pub open spec fn frame_type(frame: Frame) -> u8 {
    match frame {
        Frame::Data(_) => FRAME_TYPE_DATA,
        Frame::Resize { .. } => FRAME_TYPE_RESIZE,
        Frame::Detach => FRAME_TYPE_DETACH,
        Frame::Control(_) => FRAME_TYPE_CONTROL,
    }
}

/// The payload of a frame.
pub open spec fn frame_payload(frame: Frame) -> Seq<u8> {
    match frame {
        Frame::Data(bytes) => bytes,
        Frame::Resize { cols, rows } => be16(cols) + be16(rows),
        Frame::Detach => Seq::empty(),
        Frame::Control(bytes) => bytes,
    }
}

/// A frame on a socket.
pub open spec fn frame_bytes(terminal_id: Seq<char>, frame: Frame) -> Seq<u8> {
    seq![frame_type(frame)] + id_field(encode_utf8(terminal_id)) + be32(
        sent_length(frame_payload(frame).len()),
    ) + frame_payload(frame)
}

/// What the first bytes of a frame say.
pub struct Header {
    pub terminal_id: Seq<char>,
    pub kind: u8,
    /// How many bytes are to be read before the frame is complete.
    pub to_read: nat,
}

/// What the first bytes of a frame say, or why they are refused.
pub open spec fn header_in(bytes: Seq<u8>) -> Result<Header, Failure> {
    let kind = bytes[0];
    let len = from_be32(bytes.subrange(9, 13)) as nat;
    if len > MAX_MESSAGE_SIZE {
        Err(frame_too_large(len))
    } else if kind == FRAME_TYPE_RESIZE && len != 4 {
        Err(resize_of_wrong_length(len))
    } else if kind == FRAME_TYPE_DATA || kind == FRAME_TYPE_RESIZE || kind == FRAME_TYPE_CONTROL {
        Ok(Header { terminal_id: id_in(bytes.subrange(1, 9)), kind, to_read: len })
    } else if kind == FRAME_TYPE_DETACH {
        Ok(Header { terminal_id: id_in(bytes.subrange(1, 9)), kind, to_read: 0 })
    } else {
        Err(unknown_type(kind))
    }
}

/// The frame of a known type with a payload.
pub open spec fn frame_of(kind: u8, payload: Seq<u8>) -> Frame {
    if kind == FRAME_TYPE_DATA {
        Frame::Data(payload)
    } else if kind == FRAME_TYPE_RESIZE {
        Frame::Resize {
            cols: from_be16(payload.subrange(0, 2)),
            rows: from_be16(payload.subrange(2, 4)),
        }
    } else if kind == FRAME_TYPE_CONTROL {
        Frame::Control(payload)
    } else {
        Frame::Detach
    }
}

/// A frame that was read, its terminal, and how many bytes it took.
pub struct Reading {
    pub terminal_id: Seq<char>,
    pub frame: Frame,
    pub used: nat,
}

/// What is read when a socket holds these bytes and then ends: a frame.
pub open spec fn frame_in(bytes: Seq<u8>) -> Result<Reading, Failure> {
    if bytes.len() < HEADER_SIZE {
        Err(ends_early())
    } else {
        match header_in(bytes.take(HEADER_SIZE as int)) {
            Err(failure) => Err(failure),
            Ok(header) => if bytes.len() < HEADER_SIZE + header.to_read {
                Err(ends_early())
            } else {
                Ok(
                    Reading {
                        terminal_id: header.terminal_id,
                        frame: frame_of(
                            header.kind,
                            bytes.subrange(HEADER_SIZE as int, HEADER_SIZE + header.to_read),
                        ),
                        used: HEADER_SIZE as nat + header.to_read,
                    },
                )
            },
        }
    }
}

/// The numbers of some bytes, separated by commas.
pub open spec fn byte_list(bytes: Seq<u8>) -> Seq<char>
    decreases bytes.len(),
{
    if bytes.len() == 0 {
        Seq::empty()
    } else if bytes.len() == 1 {
        decimal_digits(bytes[0] as nat)
    } else {
        byte_list(bytes.drop_last()) + ", "@ + decimal_digits(bytes.last() as nat)
    }
}

/// A frame in words.
pub open spec fn frame_text(frame: Frame) -> Seq<char> {
    match frame {
        Frame::Data(bytes) => "Data(["@ + byte_list(bytes) + "])"@,
        Frame::Resize { cols, rows } => "Resize { cols: "@ + decimal_digits(cols as nat)
            + ", rows: "@ + decimal_digits(rows as nat) + " }"@,
        Frame::Detach => "Detach"@,
        Frame::Control(bytes) => "Control(["@ + byte_list(bytes) + "])"@,
    }
}

/// What is read when a socket holds these bytes and then ends: the JSON in a
/// control frame.
pub open spec fn control_in(bytes: Seq<u8>) -> Result<Seq<u8>, Failure> {
    match frame_in(bytes) {
        Err(failure) => Err(failure),
        Ok(reading) => match reading.frame {
            Frame::Control(json) => Ok(json),
            other => Err(Failure::Ipc("expected Control frame, got "@ + frame_text(other))),
        },
    }
}

/// Writes a message behind what a buffer holds.
pub fn write_message(stream: &mut Vec<u8>, json: &[u8])
    ensures
        final(stream)@ == old(stream)@ + message_bytes(json@),
{
    push_be32(stream, length_to_send(json.len()));
    push_bytes(stream, json);
    assert(stream@ =~= old(stream)@ + message_bytes(json@));
}

fn early_eof() -> (e: KexError)
    ensures
        e@ == ends_early(),
{
    KexError::Io("early eof".to_string())
}

fn sized_failure(before: &str, len: u32, after: &str) -> (e: KexError)
    ensures
        e@ == Failure::Ipc(before@ + decimal_digits(len as nat) + after@),
{
    let mut text = before.to_owned();
    push_decimal(&mut text, len as u64);
    text.append(after);
    KexError::Ipc(text)
}

/// Reads how long a message is, from the four bytes before it.
pub fn message_len(bytes: &[u8]) -> (r: Result<usize, KexError>)
    requires
        bytes@.len() == LENGTH_SIZE,
    ensures
        match r {
            Ok(len) => len == from_be32(bytes@) && len <= MAX_MESSAGE_SIZE,
            Err(e) => from_be32(bytes@) > MAX_MESSAGE_SIZE && e@ == message_too_large(
                from_be32(bytes@) as nat,
            ),
        },
{
    assert(bytes@.subrange(0, 4) =~= bytes@);
    let len: u32 = read_be32(bytes, 0);
    if len as usize > MAX_MESSAGE_SIZE {
        return Err(sized_failure("message too large: ", len, " bytes"));
    }
    Ok(len as usize)
}

/// Reads a message off a socket that holds these bytes and then ends.
pub fn read_message(bytes: &[u8]) -> (r: Result<Vec<u8>, KexError>)
    ensures
        match r {
            Ok(json) => message_in(bytes@) matches Ok(want) && json@ == want,
            Err(e) => message_in(bytes@) matches Err(want) && e@ == want,
        },
{
    if bytes.len() < LENGTH_SIZE {
        return Err(early_eof());
    }
    let head = bytes_between(bytes, 0, LENGTH_SIZE);
    assert(head@ =~= bytes@.take(LENGTH_SIZE as int));
    let len = match message_len(head.as_slice()) {
        Ok(len) => len,
        Err(e) => return Err(e),
    };
    if bytes.len() - LENGTH_SIZE < len {
        return Err(early_eof());
    }
    Ok(bytes_between(bytes, LENGTH_SIZE, LENGTH_SIZE + len))
}

/// Writes a frame behind what a buffer holds.
pub fn write_binary_frame(stream: &mut Vec<u8>, terminal_id: &str, frame: &BinaryFrame)
    ensures
        final(stream)@ == old(stream)@ + frame_bytes(terminal_id@, frame@),
{
    let kind: u8 = match frame {
        BinaryFrame::Data(_) => FRAME_TYPE_DATA,
        BinaryFrame::Resize { .. } => FRAME_TYPE_RESIZE,
        BinaryFrame::Detach => FRAME_TYPE_DETACH,
        BinaryFrame::Control(_) => FRAME_TYPE_CONTROL,
    };
    stream.push(kind);
    push_id(stream, terminal_id);
    match frame {
        BinaryFrame::Data(data) => {
            push_be32(stream, length_to_send(data.len()));
            push_bytes(stream, data.as_slice());
        },
        BinaryFrame::Resize { cols, rows } => {
            push_be32(stream, 4);
            push_be16(stream, *cols);
            push_be16(stream, *rows);
        },
        BinaryFrame::Detach => {
            push_be32(stream, 0);
        },
        BinaryFrame::Control(payload) => {
            push_be32(stream, length_to_send(payload.len()));
            push_bytes(stream, payload.as_slice());
        },
    }
    assert(stream@ =~= old(stream)@ + frame_bytes(terminal_id@, frame@));
}

/// What the first bytes of a frame say.
#[derive(Debug)]
pub struct FrameHeader {
    pub terminal_id: String,
    pub kind: u8,
    /// How many bytes are to be read before the frame is complete.
    pub to_read: usize,
}

impl FrameHeader {
    /// Whether the type is a known one and the length fits it.
    pub open spec fn wf(&self) -> bool {
        &&& self.kind == FRAME_TYPE_DATA || self.kind == FRAME_TYPE_RESIZE || self.kind
            == FRAME_TYPE_DETACH || self.kind == FRAME_TYPE_CONTROL
        &&& self.kind == FRAME_TYPE_RESIZE ==> self.to_read == 4
    }
}

/// Reads the bytes before the payload of a frame.
pub fn frame_header(bytes: &[u8]) -> (r: Result<FrameHeader, KexError>)
    requires
        bytes@.len() == HEADER_SIZE,
    ensures
        match r {
            Ok(header) => {
                &&& header.wf()
                &&& header.to_read <= MAX_MESSAGE_SIZE
                &&& header_in(bytes@) matches Ok(want)
                &&& header.terminal_id@ == want.terminal_id
                &&& header.kind == want.kind
                &&& header.to_read == want.to_read
            },
            Err(e) => header_in(bytes@) matches Err(want) && e@ == want,
        },
{
    let kind: u8 = bytes[0];
    let field = bytes_between(bytes, 1, 1 + ID_FIELD);
    let terminal_id = read_id(field.as_slice());
    let len: u32 = read_be32(bytes, 1 + ID_FIELD);
    if len as usize > MAX_MESSAGE_SIZE {
        return Err(sized_failure("frame too large: ", len, " bytes"));
    }
    if kind == FRAME_TYPE_RESIZE && len != 4 {
        let mut text = "resize frame expects 4 bytes, got ".to_string();
        push_decimal(&mut text, len as u64);
        return Err(KexError::Ipc(text));
    }
    if kind == FRAME_TYPE_DATA || kind == FRAME_TYPE_RESIZE || kind == FRAME_TYPE_CONTROL {
        Ok(FrameHeader { terminal_id, kind, to_read: len as usize })
    } else if kind == FRAME_TYPE_DETACH {
        Ok(FrameHeader { terminal_id, kind, to_read: 0 })
    } else {
        let mut text = "unknown frame type: 0x".to_string();
        push_hex(&mut text, kind as u64);
        Err(KexError::Ipc(text))
    }
}

/// The frame that a header and its payload make.
pub fn complete_frame(header: &FrameHeader, payload: Vec<u8>) -> (frame: BinaryFrame)
    requires
        header.wf(),
        payload@.len() == header.to_read,
    ensures
        frame@ == frame_of(header.kind, payload@),
{
    if header.kind == FRAME_TYPE_DATA {
        BinaryFrame::Data(payload)
    } else if header.kind == FRAME_TYPE_RESIZE {
        proof {
            assert(payload@.subrange(0, 2) =~= seq![payload@[0], payload@[1]]);
            assert(payload@.subrange(2, 4) =~= seq![payload@[2], payload@[3]]);
        }
        BinaryFrame::Resize {
            cols: read_be16(payload[0], payload[1]),
            rows: read_be16(payload[2], payload[3]),
        }
    } else if header.kind == FRAME_TYPE_CONTROL {
        BinaryFrame::Control(payload)
    } else {
        BinaryFrame::Detach
    }
}

/// Reads a frame off a socket that holds these bytes and then ends. The last
/// part of the result is how many bytes the frame took.
pub fn read_binary_frame(bytes: &[u8]) -> (r: Result<(String, BinaryFrame, usize), KexError>)
    ensures
        match r {
            Ok((terminal_id, frame, used)) => {
                &&& frame_in(bytes@) matches Ok(want)
                &&& terminal_id@ == want.terminal_id
                &&& frame@ == want.frame
                &&& used == want.used
            },
            Err(e) => frame_in(bytes@) matches Err(want) && e@ == want,
        },
{
    if bytes.len() < HEADER_SIZE {
        return Err(early_eof());
    }
    let head = bytes_between(bytes, 0, HEADER_SIZE);
    assert(head@ =~= bytes@.take(HEADER_SIZE as int));
    let header = match frame_header(head.as_slice()) {
        Ok(header) => header,
        Err(e) => return Err(e),
    };
    if bytes.len() - HEADER_SIZE < header.to_read {
        return Err(early_eof());
    }
    let used: usize = HEADER_SIZE + header.to_read;
    let payload = bytes_between(bytes, HEADER_SIZE, used);
    let frame = complete_frame(&header, payload);
    Ok((header.terminal_id, frame, used))
}

/// Writes a control frame, which is for no terminal, behind what a buffer holds.
pub fn write_control_frame(stream: &mut Vec<u8>, json: Vec<u8>)
    ensures
        final(stream)@ == old(stream)@ + frame_bytes(
            "\0\0\0\0\0\0\0\0"@,
            Frame::Control(json@),
        ),
{
    let frame = BinaryFrame::Control(json);
    write_binary_frame(stream, "\0\0\0\0\0\0\0\0", &frame);
}

fn push_byte_list(text: &mut String, bytes: &Vec<u8>)
    ensures
        final(text)@ == old(text)@ + byte_list(bytes@),
{
    let mut i: usize = 0;
    assert(text@ =~= old(text)@ + byte_list(bytes@.take(0)));
    while i < bytes.len()
        invariant
            i <= bytes@.len(),
            text@ == old(text)@ + byte_list(bytes@.take(i as int)),
        decreases bytes@.len() - i,
    {
        if i > 0 {
            text.append(", ");
        }
        push_decimal(text, bytes[i] as u64);
        i = i + 1;
        proof {
            let now = bytes@.take(i as int);
            assert(now.drop_last() =~= bytes@.take(i - 1));
            assert(now.last() == bytes@[i - 1]);
            assert(text@ =~= old(text)@ + byte_list(now));
        }
    }
    assert(bytes@.take(i as int) =~= bytes@);
}

fn push_frame_text(text: &mut String, frame: &BinaryFrame)
    ensures
        final(text)@ == old(text)@ + frame_text(frame@),
{
    match frame {
        BinaryFrame::Data(bytes) => {
            text.append("Data([");
            push_byte_list(text, bytes);
            text.append("])");
        },
        BinaryFrame::Resize { cols, rows } => {
            text.append("Resize { cols: ");
            push_decimal(text, *cols as u64);
            text.append(", rows: ");
            push_decimal(text, *rows as u64);
            text.append(" }");
        },
        BinaryFrame::Detach => {
            text.append("Detach");
        },
        BinaryFrame::Control(bytes) => {
            text.append("Control([");
            push_byte_list(text, bytes);
            text.append("])");
        },
    }
    assert(text@ =~= old(text)@ + frame_text(frame@));
}

/// The JSON in a frame, which has to be a control frame.
pub fn control_payload(frame: BinaryFrame) -> (r: Result<Vec<u8>, KexError>)
    ensures
        match r {
            Ok(json) => frame@ == Frame::Control(json@),
            Err(e) => !(frame@ is Control) && e@ == Failure::Ipc(
                "expected Control frame, got "@ + frame_text(frame@),
            ),
        },
{
    match frame {
        BinaryFrame::Control(json) => Ok(json),
        other => {
            let mut text = "expected Control frame, got ".to_string();
            push_frame_text(&mut text, &other);
            Err(KexError::Ipc(text))
        },
    }
}

/// Reads the JSON in a control frame off a socket that holds these bytes and
/// then ends.
pub fn read_control_frame(bytes: &[u8]) -> (r: Result<Vec<u8>, KexError>)
    ensures
        match r {
            Ok(json) => control_in(bytes@) matches Ok(want) && json@ == want,
            Err(e) => control_in(bytes@) matches Err(want) && e@ == want,
        },
{
    match read_binary_frame(bytes) {
        Ok((_, frame, _)) => control_payload(frame),
        Err(e) => Err(e),
    }
}

/// A message is read back as it was written, whatever follows it on the socket.
pub proof fn message_reads_back(json: Seq<u8>, rest: Seq<u8>)
    requires
        json.len() <= MAX_MESSAGE_SIZE,
    ensures
        message_in(message_bytes(json) + rest) matches Ok(read) && read == json,
{
    let bytes = message_bytes(json) + rest;
    be32_reads_back(sent_length(json.len()));
    assert(bytes.take(4) =~= be32(sent_length(json.len())));
    assert(bytes.subrange(4, 4 + json.len() as int) =~= json);
}

/// A message that is longer than the limit is written and then refused by its
/// reader, who names its length.
pub proof fn long_message_is_refused(json: Seq<u8>, rest: Seq<u8>)
    requires
        MAX_MESSAGE_SIZE < json.len() < 0x1_0000_0000,
    ensures
        message_in(message_bytes(json) + rest) matches Err(failure) && failure
            == message_too_large(json.len()),
{
    let bytes = message_bytes(json) + rest;
    be32_reads_back(sent_length(json.len()));
    assert(bytes.take(4) =~= be32(sent_length(json.len())));
}

proof fn lemma_parts(kind: u8, field: Seq<u8>, len: Seq<u8>, payload: Seq<u8>, rest: Seq<u8>)
    requires
        field.len() == ID_FIELD,
        len.len() == LENGTH_SIZE,
    ensures
        ({
            let bytes = seq![kind] + field + len + payload + rest;
            let head = bytes.take(HEADER_SIZE as int);
            &&& bytes.len() == HEADER_SIZE + payload.len() + rest.len()
            &&& head[0] == kind
            &&& head.subrange(1, 9) == field
            &&& head.subrange(9, 13) == len
            &&& bytes.subrange(HEADER_SIZE as int, HEADER_SIZE + payload.len()) == payload
        }),
{
    let bytes = seq![kind] + field + len + payload + rest;
    let head = bytes.take(HEADER_SIZE as int);
    assert(head.subrange(1, 9) =~= field);
    assert(head.subrange(9, 13) =~= len);
    assert(bytes.subrange(HEADER_SIZE as int, HEADER_SIZE + payload.len()) =~= payload);
}

proof fn lemma_frame_of_payload(frame: Frame)
    ensures
        frame_of(frame_type(frame), frame_payload(frame)) == frame,
        frame is Resize ==> frame_payload(frame).len() == 4,
        frame is Detach ==> frame_payload(frame).len() == 0,
{
    match frame {
        Frame::Resize { cols, rows } => {
            let payload = be16(cols) + be16(rows);
            be16_reads_back(cols);
            be16_reads_back(rows);
            assert(payload.subrange(0, 2) =~= be16(cols));
            assert(payload.subrange(2, 4) =~= be16(rows));
        },
        _ => {},
    }
}

/// A frame is read back as it was written, with its terminal, whatever follows
/// it on the socket. Zeros at the end of the identifier are lost.
pub proof fn frame_reads_back(terminal_id: Seq<char>, frame: Frame, rest: Seq<u8>)
    requires
        encode_utf8(terminal_id).len() <= ID_FIELD,
        frame_payload(frame).len() <= MAX_MESSAGE_SIZE,
    ensures
        frame_in(frame_bytes(terminal_id, frame) + rest) matches Ok(read) && read == (Reading {
            terminal_id: without_nul_tail(terminal_id),
            frame,
            used: frame_bytes(terminal_id, frame).len(),
        }),
{
    let payload = frame_payload(frame);
    let len = sent_length(payload.len());
    let field = id_field(encode_utf8(terminal_id));
    be32_reads_back(len);
    id_reads_back(terminal_id);
    lemma_frame_of_payload(frame);
    lemma_parts(frame_type(frame), field, be32(len), payload, rest);
}

/// A frame that is longer than the limit is written and then refused by its
/// reader, who names its length.
pub proof fn long_frame_is_refused(terminal_id: Seq<char>, frame: Frame, rest: Seq<u8>)
    requires
        MAX_MESSAGE_SIZE < frame_payload(frame).len() < 0x1_0000_0000,
    ensures
        frame_in(frame_bytes(terminal_id, frame) + rest) matches Err(failure) && failure
            == frame_too_large(frame_payload(frame).len()),
{
    let len = sent_length(frame_payload(frame).len());
    be32_reads_back(len);
    lemma_parts(
        frame_type(frame),
        id_field(encode_utf8(terminal_id)),
        be32(len),
        frame_payload(frame),
        rest,
    );
}

/// The JSON of a control frame is read back as it was written.
pub proof fn control_reads_back(json: Seq<u8>, rest: Seq<u8>)
    requires
        json.len() <= MAX_MESSAGE_SIZE,
    ensures
        control_in(frame_bytes("\0\0\0\0\0\0\0\0"@, Frame::Control(json)) + rest) matches Ok(read)
            && read == json,
{
    reveal_strlit("\0\0\0\0\0\0\0\0");
    let id = "\0\0\0\0\0\0\0\0"@;
    assert(vstd::utf8::is_ascii_chars(id));
    vstd::utf8::is_ascii_chars_encode_utf8(id);
    frame_reads_back(id, Frame::Control(json), rest);
}

/// How a frame is laid out: a byte for its type, the identifier in eight bytes,
/// the length of the payload in four with the highest one first, and the payload.
/// A size is sent as columns and then rows, two bytes each, and a farewell has no
/// payload.
pub proof fn frames_have_one_layout(id: Seq<char>, frame: Frame)
    ensures
        ({
            let bytes = frame_bytes(id, frame);
            let rest = bytes.skip(13);
            &&& bytes.len() >= 13
            &&& bytes[0] == match frame {
                Frame::Data(_) => 0x01u8,
                Frame::Resize { .. } => 0x02u8,
                Frame::Detach => 0x03u8,
                Frame::Control(_) => 0x10u8,
            }
            &&& forall|i: int|
                0 <= i < 8 ==> #[trigger] bytes[1 + i] == if i < encode_utf8(id).len() {
                    encode_utf8(id)[i]
                } else {
                    0
                }
            &&& rest.len() <= u32::MAX ==> ((bytes[9] * 256 + bytes[10]) * 256 + bytes[11]) * 256
                + bytes[12] == rest.len()
            &&& match frame {
                Frame::Data(payload) => rest == payload,
                Frame::Control(payload) => rest == payload,
                Frame::Detach => rest.len() == 0,
                Frame::Resize { cols, rows } => {
                    &&& rest.len() == 4
                    &&& rest[0] * 256 + rest[1] == cols
                    &&& rest[2] * 256 + rest[3] == rows
                },
            }
        }),
{
    let bytes = frame_bytes(id, frame);
    let field = id_field(encode_utf8(id));
    let payload = frame_payload(frame);
    assert(bytes.skip(13) =~= payload);
    assert forall|i: int| 0 <= i < 8 implies #[trigger] bytes[1 + i] == field[i] by {}
    assert(bytes[9] == be32(sent_length(payload.len()))[0]);
    assert(bytes[10] == be32(sent_length(payload.len()))[1]);
    assert(bytes[11] == be32(sent_length(payload.len()))[2]);
    assert(bytes[12] == be32(sent_length(payload.len()))[3]);
}

/// What is made of any bytes that are read as a frame. A length over sixteen
/// mebibytes is refused first, then a size that is not four bytes long, then a
/// type that nobody knows. A farewell takes no payload, whatever its length says;
/// any other frame takes as many bytes as its length says, and fails where they
/// are not there.
pub proof fn any_bytes_are_a_frame_or_refused(bytes: Seq<u8>)
    ensures
        bytes.len() < 13 ==> frame_in(bytes) == Err::<Reading, Failure>(
            Failure::Io("early eof"@),
        ),
        bytes.len() >= 13 ==> {
            let kind = bytes[0];
            let len = (((bytes[9] * 256 + bytes[10]) * 256 + bytes[11]) * 256 + bytes[12]) as nat;
            let id = id_in(bytes.subrange(1, 9));
            let read = frame_in(bytes);
            if len > 16777216 {
                read == Err::<Reading, Failure>(
                    Failure::Ipc("frame too large: "@ + decimal_digits(len) + " bytes"@),
                )
            } else if kind == 2 && len != 4 {
                read == Err::<Reading, Failure>(
                    Failure::Ipc("resize frame expects 4 bytes, got "@ + decimal_digits(len)),
                )
            } else if kind == 3 {
                read == Ok::<Reading, Failure>(
                    Reading { terminal_id: id, frame: Frame::Detach, used: 13 },
                )
            } else if kind != 1 && kind != 2 && kind != 16 {
                read == Err::<Reading, Failure>(
                    Failure::Ipc("unknown frame type: 0x"@ + hex_digits(kind as nat)),
                )
            } else if bytes.len() < 13 + len {
                read == Err::<Reading, Failure>(Failure::Io("early eof"@))
            } else {
                let payload = bytes.subrange(13, 13 + len as int);
                &&& read matches Ok(reading)
                &&& reading.terminal_id == id
                &&& reading.used == 13 + len
                &&& kind == 1 ==> reading.frame == Frame::Data(payload)
                &&& kind == 16 ==> reading.frame == Frame::Control(payload)
                &&& kind == 2 ==> reading.frame == (Frame::Resize {
                    cols: (bytes[13] * 256 + bytes[14]) as u16,
                    rows: (bytes[15] * 256 + bytes[16]) as u16,
                })
            }
        },
{
    if bytes.len() >= 13 {
        let head = bytes.take(13);
        assert(head.subrange(9, 13) =~= seq![bytes[9], bytes[10], bytes[11], bytes[12]]);
        assert(head.subrange(1, 9) =~= bytes.subrange(1, 9));
        assert(head[0] == bytes[0]);
        numbers_have_the_high_byte_first(0, 0, bytes[9], bytes[10], bytes[11], bytes[12]);
        if bytes.len() >= 17 {
            let payload = bytes.subrange(13, 17);
            assert(payload.subrange(0, 2) =~= seq![bytes[13], bytes[14]]);
            assert(payload.subrange(2, 4) =~= seq![bytes[15], bytes[16]]);
        }
    }
}

/// A message is its length in four bytes with the highest one first, and then the
/// message itself.
pub proof fn messages_have_one_layout(json: Seq<u8>)
    ensures
        ({
            let bytes = message_bytes(json);
            &&& bytes.len() == 4 + json.len()
            &&& bytes.skip(4) == json
            &&& json.len() <= u32::MAX ==> ((bytes[0] * 256 + bytes[1]) * 256 + bytes[2]) * 256
                + bytes[3] == json.len()
        }),
{
    assert(message_bytes(json).skip(4) =~= json);
}

/// What is made of any bytes that are read as a message: a length over sixteen
/// mebibytes is refused, and otherwise as many bytes are taken as it says.
pub proof fn any_bytes_are_a_message_or_refused(bytes: Seq<u8>)
    ensures
        bytes.len() < 4 ==> message_in(bytes) == Err::<Seq<u8>, Failure>(
            Failure::Io("early eof"@),
        ),
        bytes.len() >= 4 ==> {
            let len = (((bytes[0] * 256 + bytes[1]) * 256 + bytes[2]) * 256 + bytes[3]) as nat;
            message_in(bytes) == if len > 16777216 {
                Err::<Seq<u8>, Failure>(
                    Failure::Ipc("message too large: "@ + decimal_digits(len) + " bytes"@),
                )
            } else if bytes.len() < 4 + len {
                Err(Failure::Io("early eof"@))
            } else {
                Ok(bytes.subrange(4, 4 + len as int))
            }
        },
{
    if bytes.len() >= 4 {
        assert(bytes.take(4) =~= seq![bytes[0], bytes[1], bytes[2], bytes[3]]);
        numbers_have_the_high_byte_first(0, 0, bytes[0], bytes[1], bytes[2], bytes[3]);
    }
}

/// Where a control frame is awaited, any other frame is refused by its name and
/// what it holds, and a frame that cannot be read fails as it does elsewhere.
pub proof fn only_a_control_frame_is_taken(bytes: Seq<u8>)
    ensures
        match frame_in(bytes) {
            Err(failure) => control_in(bytes) == Err::<Seq<u8>, Failure>(failure),
            Ok(reading) => match reading.frame {
                Frame::Control(json) => control_in(bytes) == Ok::<Seq<u8>, Failure>(json),
                Frame::Detach => control_in(bytes) == Err::<Seq<u8>, Failure>(
                    Failure::Ipc("expected Control frame, got "@ + "Detach"@),
                ),
                Frame::Data(data) => control_in(bytes) == Err::<Seq<u8>, Failure>(
                    Failure::Ipc(
                        "expected Control frame, got "@ + ("Data(["@ + byte_list(data) + "])"@),
                    ),
                ),
                Frame::Resize { cols, rows } => control_in(bytes) == Err::<Seq<u8>, Failure>(
                    Failure::Ipc(
                        "expected Control frame, got "@ + ("Resize { cols: "@ + decimal_digits(
                            cols as nat,
                        ) + ", rows: "@ + decimal_digits(rows as nat) + " }"@),
                    ),
                ),
            },
        },
{
}

/// A list of bytes is written number by number with a comma and a blank between
/// each two of them.
pub proof fn byte_list_goes_piece_by_piece(a: Seq<u8>, b: Seq<u8>, byte: u8)
    ensures
        byte_list(Seq::empty()) == Seq::<char>::empty(),
        byte_list(seq![byte]) == decimal_digits(byte as nat),
        a.len() > 0 && b.len() > 0 ==> byte_list(a + b) == byte_list(a) + seq![',', ' ']
            + byte_list(b),
    decreases b.len(),
{
    reveal_strlit(", ");
    assert(", "@ =~= seq![',', ' ']);
    if a.len() > 0 && b.len() > 0 {
        let whole = a + b;
        assert(whole.last() == b.last());
        assert(whole.drop_last() =~= a + b.drop_last());
        if b.len() > 1 {
            byte_list_goes_piece_by_piece(a, b.drop_last(), byte);
            assert(byte_list(whole) =~= byte_list(a) + seq![',', ' '] + byte_list(b));
        } else {
            assert(whole.drop_last() =~= a);
        }
    }
}

} // verus!
