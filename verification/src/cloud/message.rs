//! Text messages on the link to the cloud.
use vstd::prelude::*;

use crate::json::{
    json_of, number, obj1, obj2, obj3, object1, object2, object3, plain, reads_as, text, truth,
    write_text, written, Json, READABLE_DEPTH,
};

verus! {

/// The version of the protocol.
pub const PROTOCOL_VERSION: u64 = 1;

/// How deep a payload may be nested so that its message can be read again.
pub const PAYLOAD_DEPTH: u8 = 99;

/// The envelope of a message.
pub open spec fn envelope_json(kind: Seq<char>, payload: Json) -> Json {
    obj3(
        "v"@,
        Json::Unsigned(PROTOCOL_VERSION),
        "type"@,
        Json::Text(kind),
        "payload"@,
        payload,
    )
}

/// The text of a message.
pub open spec fn message(kind: Seq<char>, payload: Json) -> Seq<char> {
    written(envelope_json(kind, payload))
}

/// Whether a text is a message, and who reads it finds the version, the type and
/// the payload again.
pub open spec fn says(text: Seq<char>, kind: Seq<char>, payload: Json) -> bool {
    text == message(kind, payload) && reads_as(text, envelope_json(kind, payload))
}

/// Whether a text is a message that can be read again.
pub open spec fn is_message(text: Seq<char>) -> bool {
    exists|kind: Seq<char>, payload: Json| says(text, kind, payload)
}

/// An object of texts, whole numbers, truth values and nulls can be read again.
pub proof fn lemma_flat_is_plain(members: Map<Seq<char>, Json>)
    requires
        forall|key: Seq<char>| #[trigger]
            members.contains_key(key) ==> (members[key] is Text || members[key] is Unsigned
                || members[key] is Bool || members[key] is Null),
    ensures
        forall|depth: nat| depth > 0 ==> #[trigger] plain(Json::Object(members), depth),
{
    assert forall|depth: nat| depth > 0 implies #[trigger] plain(Json::Object(members), depth) by {
        assert forall|key: Seq<char>| #[trigger] members.contains_key(key) implies plain(
            members[key],
            (depth - 1) as nat,
        ) by {}
    }
}

/// Puts a payload into an envelope. Who reads the text finds the version, the
/// type and the payload again.
pub fn envelope(msg_type: &str, payload: serde_json::Value) -> (out: String)
    ensures
        out@ == message(msg_type@, json_of(payload)),
        plain(json_of(payload), PAYLOAD_DEPTH as nat) ==> reads_as(
            out@,
            envelope_json(msg_type@, json_of(payload)),
        ),
{
    let whole = object3("v", number(PROTOCOL_VERSION), "type", text(msg_type), "payload", payload);
    proof {
        let json = json_of(payload);
        let members = json_of(whole)->Object_0;
        if plain(json, PAYLOAD_DEPTH as nat) {
            assert forall|key: Seq<char>| #[trigger] members.contains_key(key) implies plain(
                members[key],
                (READABLE_DEPTH - 1) as nat,
            ) by {}
            assert(plain(json_of(whole), READABLE_DEPTH as nat));
        }
    }
    write_text(&whole)
}

/// A message about a terminal.
pub fn terminal_message(msg_type: &str, id: &str) -> (out: String)
    ensures
        says(out@, msg_type@, obj1("terminalId"@, Json::Text(id@))),
{
    let payload = object1("terminalId", text(id));
    proof {
        lemma_flat_is_plain(json_of(payload)->Object_0);
    }
    envelope(msg_type, payload)
}

/// A message about a request.
pub fn request_message(msg_type: &str, request_id: &str) -> (out: String)
    ensures
        says(out@, msg_type@, obj1("requestId"@, Json::Text(request_id@))),
{
    let payload = object1("requestId", text(request_id));
    proof {
        lemma_flat_is_plain(json_of(payload)->Object_0);
    }
    envelope(msg_type, payload)
}

/// A message about a request that failed.
pub fn request_failure(msg_type: &str, request_id: &str, reason: &str) -> (out: String)
    ensures
        says(
            out@,
            msg_type@,
            obj2("requestId"@, Json::Text(request_id@), "message"@, Json::Text(reason@)),
        ),
{
    let payload = object2("requestId", text(request_id), "message", text(reason));
    proof {
        lemma_flat_is_plain(json_of(payload)->Object_0);
    }
    envelope(msg_type, payload)
}

/// The payload that names a terminal, with its own name where it has one.
pub open spec fn named_terminal(key: Seq<char>, id: Seq<char>, name: Option<Seq<char>>) -> Json {
    match name {
        Some(n) => obj2(key, Json::Text(id), "name"@, Json::Text(n)),
        None => obj1(key, Json::Text(id)),
    }
}

/// Makes the payload that names a terminal.
pub(crate) fn terminal_payload(key: &str, id: &str, name: &Option<String>) -> (v:
    serde_json::Value)
    ensures
        json_of(v) == named_terminal(key@, id@, crate::text::text_option(*name)),
{
    match name {
        Some(n) => object2(key, text(id), "name", text(n.as_str())),
        None => object1(key, text(id)),
    }
}

/// The message that exposes a port.
pub fn expose_message(port: u16, public: bool) -> (out: String)
    ensures
        says(
            out@,
            "proxy.expose"@,
            obj2("port"@, Json::Unsigned(port as u64), "public"@, Json::Bool(public)),
        ),
{
    let payload = object2("port", number(port as u64), "public", truth(public));
    proof {
        lemma_flat_is_plain(json_of(payload)->Object_0);
    }
    envelope("proxy.expose", payload)
}

/// The message that takes a port back.
pub fn unexpose_message(port: u16) -> (out: String)
    ensures
        says(out@, "proxy.unexpose"@, obj1("port"@, Json::Unsigned(port as u64))),
{
    let payload = object1("port", number(port as u64));
    proof {
        lemma_flat_is_plain(json_of(payload)->Object_0);
    }
    envelope("proxy.unexpose", payload)
}

/// The message that ends a WebSocket.
pub fn socket_close_message(request_id: &str, code: u16, reason: &str) -> (out: String)
    ensures
        says(
            out@,
            "proxy.ws.close"@,
            obj3(
                "requestId"@,
                Json::Text(request_id@),
                "code"@,
                Json::Unsigned(code as u64),
                "reason"@,
                Json::Text(reason@),
            ),
        ),
{
    let payload = object3(
        "requestId",
        text(request_id),
        "code",
        number(code as u64),
        "reason",
        text(reason),
    );
    proof {
        lemma_flat_is_plain(json_of(payload)->Object_0);
    }
    envelope("proxy.ws.close", payload)
}

/// The message that comes before a picture of a terminal.
pub fn snapshot_message(id: &str, rows: u16, cols: u16) -> (out: String)
    ensures
        says(
            out@,
            "terminal.snapshot"@,
            obj3(
                "terminalId"@,
                Json::Text(id@),
                "rows"@,
                Json::Unsigned(rows as u64),
                "cols"@,
                Json::Unsigned(cols as u64),
            ),
        ),
{
    let payload = object3(
        "terminalId",
        text(id),
        "rows",
        number(rows as u64),
        "cols",
        number(cols as u64),
    );
    proof {
        lemma_flat_is_plain(json_of(payload)->Object_0);
    }
    envelope("terminal.snapshot", payload)
}

} // verus!
