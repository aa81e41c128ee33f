//! Binary frames on the link to the cloud: one byte of type, eight bytes of
//! identifier, and the payload up to the end of the message.
use vstd::prelude::*;
use vstd::utf8::encode_utf8;

use super::proxy::FRAME_PROXY_WS_DATA;
use crate::text::without_nul_tail;
use crate::wire::{
    bytes_between, id_field, id_in, id_reads_back, push_bytes, push_id, read_id, ID_FIELD,
};

verus! {

/// The type of a frame with what a terminal shows or is to read.
pub const FRAME_DATA: u8 = 0x01;

/// The type of a frame with the size of a terminal.
pub const FRAME_RESIZE: u8 = 0x02;

/// How many bytes come before the payload.
pub const FRAME_HEAD: usize = 9;

/// A frame.
pub open spec fn link_frame(id: Seq<char>, kind: u8, payload: Seq<u8>) -> Seq<u8> {
    seq![kind] + id_field(encode_utf8(id)) + payload
}

/// A frame with a WebSocket message: the payload starts with the mark of its
/// kind.
pub open spec fn socket_frame(id: Seq<char>, subtype: u8, payload: Seq<u8>) -> Seq<u8> {
    link_frame(id, FRAME_PROXY_WS_DATA, seq![subtype] + payload)
}

/// What a frame holds.
pub struct LinkFrame {
    pub kind: u8,
    pub id: Seq<char>,
    pub payload: Seq<u8>,
}

/// What a frame holds, where it is long enough to be one.
pub open spec fn link_frame_in(data: Seq<u8>) -> Option<LinkFrame> {
    if data.len() < FRAME_HEAD {
        None
    } else {
        Some(
            LinkFrame {
                kind: data[0],
                id: id_in(data.subrange(1, 9)),
                payload: data.skip(FRAME_HEAD as int),
            },
        )
    }
}

/// Writes a frame. An identifier that is too long is cut off.
pub fn encode_binary_frame(id: &str, frame_type: u8, payload: &[u8]) -> (frame: Vec<u8>)
    ensures
        frame@ == link_frame(id@, frame_type, payload@),
{
    let mut frame: Vec<u8> = Vec::new();
    frame.push(frame_type);
    push_id(&mut frame, id);
    push_bytes(&mut frame, payload);
    assert(frame@ =~= link_frame(id@, frame_type, payload@));
    frame
}

/// Writes a frame with a WebSocket message.
pub fn encode_ws_binary_frame(id: &str, subtype: u8, payload: &[u8]) -> (frame: Vec<u8>)
    ensures
        frame@ == socket_frame(id@, subtype, payload@),
{
    let mut frame: Vec<u8> = Vec::new();
    frame.push(FRAME_PROXY_WS_DATA);
    push_id(&mut frame, id);
    frame.push(subtype);
    push_bytes(&mut frame, payload);
    assert(frame@ =~= socket_frame(id@, subtype, payload@));
    frame
}

/// A frame that was read.
pub struct ReadFrame {
    pub kind: u8,
    pub id: String,
    pub payload: Vec<u8>,
}

/// Reads a frame, where the bytes are long enough to be one.
pub fn decode_binary_frame(data: &[u8]) -> (r: Option<ReadFrame>)
    ensures
        match r {
            Some(frame) => {
                &&& link_frame_in(data@) matches Some(want)
                &&& frame.kind == want.kind
                &&& frame.id@ == want.id
                &&& frame.payload@ == want.payload
            },
            None => link_frame_in(data@) is None,
        },
{
    if data.len() < FRAME_HEAD {
        return None;
    }
    let field = bytes_between(data, 1, 1 + ID_FIELD);
    let payload = bytes_between(data, FRAME_HEAD, data.len());
    assert(payload@ =~= data@.skip(FRAME_HEAD as int));
    Some(ReadFrame { kind: data[0], id: read_id(field.as_slice()), payload })
}

/// A frame is read back as it was written. Zeros at the end of the identifier
/// are lost.
pub proof fn link_frame_reads_back(id: Seq<char>, kind: u8, payload: Seq<u8>)
    requires
        encode_utf8(id).len() <= ID_FIELD,
    ensures
        link_frame_in(link_frame(id, kind, payload)) matches Some(read) && read == (LinkFrame {
            kind,
            id: without_nul_tail(id),
            payload,
        }),
{
    let data = link_frame(id, kind, payload);
    id_reads_back(id);
    assert(data.subrange(1, 9) =~= id_field(encode_utf8(id)));
    assert(data.skip(FRAME_HEAD as int) =~= payload);
}

/// A WebSocket message is read back as it was written, with its mark.
pub proof fn socket_frame_reads_back(id: Seq<char>, subtype: u8, payload: Seq<u8>)
    requires
        encode_utf8(id).len() <= ID_FIELD,
    ensures
        link_frame_in(socket_frame(id, subtype, payload)) matches Some(read) && read.kind
            == FRAME_PROXY_WS_DATA && read.id == without_nul_tail(id) && read.payload.len() > 0
            && read.payload[0] == subtype && read.payload.skip(1) == payload,
{
    link_frame_reads_back(id, FRAME_PROXY_WS_DATA, seq![subtype] + payload);
    assert((seq![subtype] + payload).skip(1) =~= payload);
}

} // verus!
