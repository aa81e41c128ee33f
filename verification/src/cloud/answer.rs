//! Answers from the cloud, and where to call it.
use vstd::prelude::*;

use crate::json::{at, json_of, member, parse_text, str_or, text_or, Json};
use crate::text::{concat2, replace_all, replaced_from, replacing_goes_left_to_right, same_text};

verus! {

/// What arrives instead of an answer, or as one.
pub enum Incoming {
    /// Nothing in time.
    Timeout,
    /// The end of the connection.
    Closed,
    /// A failure to read, for this reason.
    Failed(String),
    /// A text.
    Text(String),
    /// Anything else.
    Other,
}

/// What is read out of an answer: its JSON, or why there is none.
pub open spec fn reply_in(incoming: Incoming) -> Result<Json, Seq<char>> {
    match incoming {
        Incoming::Timeout => Err("response timeout"@),
        Incoming::Closed => Err("connection closed"@),
        Incoming::Failed(reason) => Err("read failed: "@ + reason@),
        Incoming::Text(text) => match crate::json::parsed(text@) {
            Ok(json) => Ok(json),
            Err(reason) => Err("invalid response: "@ + reason),
        },
        Incoming::Other => Err("unexpected non-text response"@),
    }
}

/// Reads an answer.
pub fn ws_recv_text(incoming: Incoming) -> (r: Result<serde_json::Value, String>)
    ensures
        match r {
            Ok(v) => reply_in(incoming) matches Ok(want) && json_of(v) == want,
            Err(e) => reply_in(incoming) matches Err(want) && e@ == want,
        },
{
    match incoming {
        Incoming::Timeout => Err("response timeout".to_string()),
        Incoming::Closed => Err("connection closed".to_string()),
        Incoming::Failed(reason) => Err(concat2("read failed: ", reason.as_str())),
        Incoming::Text(text) => match parse_text(text.as_str()) {
            Ok(v) => Ok(v),
            Err(reason) => Err(concat2("invalid response: ", reason.as_str())),
        },
        Incoming::Other => Err("unexpected non-text response".to_string()),
    }
}

/// Whether an answer is a consent, or why not.
pub open spec fn consent(reply: Json) -> Result<(), Seq<char>> {
    let kind = text_or(member(reply, "type"@), Seq::empty());
    if kind == "error"@ || kind == "auth.error"@ {
        Err(text_or(member(member(reply, "payload"@), "message"@), "unknown error"@))
    } else {
        Ok(())
    }
}

/// Finds out whether an answer is a consent.
pub fn check_consent(reply: &serde_json::Value) -> (r: Result<(), String>)
    ensures
        match r {
            Ok(_) => consent(json_of(*reply)) is Ok,
            Err(e) => consent(json_of(*reply)) matches Err(want) && e@ == want,
        },
{
    proof {
        reveal_strlit("");
        assert(""@ =~= Seq::empty());
    }
    let kind = str_or(at(reply, "type"), "");
    if same_text(kind.as_str(), "error") || same_text(kind.as_str(), "auth.error") {
        Err(str_or(at(at(reply, "payload"), "message"), "unknown error"))
    } else {
        Ok(())
    }
}

/// Whether the cloud has let us in, or why not.
pub open spec fn admission(incoming: Incoming) -> Result<(), Seq<char>> {
    match incoming {
        Incoming::Timeout => Err("auth timeout"@),
        Incoming::Closed => Err("connection closed during auth"@),
        Incoming::Failed(reason) => Err("auth read failed: "@ + reason@),
        Incoming::Text(text) => match crate::json::parsed(text@) {
            Ok(json) => admission_in(json),
            Err(reason) => Err("invalid auth response: "@ + reason),
        },
        Incoming::Other => Err("unexpected non-text auth response"@),
    }
}

/// Whether an answer lets us in, or why not.
pub open spec fn admission_in(reply: Json) -> Result<(), Seq<char>> {
    let kind = text_or(member(reply, "type"@), Seq::empty());
    if kind == "auth.error"@ {
        Err("auth failed: "@ + text_or(member(member(reply, "payload"@), "message"@), "unknown"@))
    } else if kind != "auth.ok"@ {
        Err("unexpected auth response: "@ + kind)
    } else {
        Ok(())
    }
}

/// Finds out whether an answer lets us in.
pub fn check_admission(reply: &serde_json::Value) -> (r: Result<(), String>)
    ensures
        match r {
            Ok(_) => admission_in(json_of(*reply)) is Ok,
            Err(e) => admission_in(json_of(*reply)) matches Err(want) && e@ == want,
        },
{
    proof {
        reveal_strlit("");
        assert(""@ =~= Seq::empty());
    }
    let kind = str_or(at(reply, "type"), "");
    if same_text(kind.as_str(), "auth.error") {
        let reason = str_or(at(at(reply, "payload"), "message"), "unknown");
        Err(concat2("auth failed: ", reason.as_str()))
    } else if !same_text(kind.as_str(), "auth.ok") {
        Err(concat2("unexpected auth response: ", kind.as_str()))
    } else {
        Ok(())
    }
}

/// Finds out whether the cloud has let us in.
pub fn read_admission(incoming: Incoming) -> (r: Result<(), String>)
    ensures
        match r {
            Ok(_) => admission(incoming) is Ok,
            Err(e) => admission(incoming) matches Err(want) && e@ == want,
        },
{
    match incoming {
        Incoming::Timeout => Err("auth timeout".to_string()),
        Incoming::Closed => Err("connection closed during auth".to_string()),
        Incoming::Failed(reason) => Err(concat2("auth read failed: ", reason.as_str())),
        Incoming::Text(text) => match parse_text(text.as_str()) {
            Ok(v) => check_admission(&v),
            Err(reason) => Err(concat2("invalid auth response: ", reason.as_str())),
        },
        Incoming::Other => Err("unexpected non-text auth response".to_string()),
    }
}

/// The address of the cloud for a device.
pub open spec fn device_url(server_url: Seq<char>) -> Seq<char> {
    replaced_from(
        replaced_from(server_url, 0, "https://"@, "wss://"@),
        0,
        "http://"@,
        "ws://"@,
    ) + "/api/ws/device"@
}

/// Finds the address of the cloud for a device.
pub fn websocket_url(server_url: &str) -> (url: String)
    ensures
        url@ == device_url(server_url@),
{
    proof {
        reveal_strlit("https://");
        reveal_strlit("http://");
    }
    let secure = replace_all(server_url, "https://", "wss://");
    let both = replace_all(secure.as_str(), "http://", "ws://");
    concat2(both.as_str(), "/api/ws/device")
}

/// The text of a failure.
pub open spec fn outcome_text(r: Result<(), String>) -> Result<(), Seq<char>> {
    match r {
        Ok(_) => Ok(()),
        Err(e) => Err(e@),
    }
}

/// Whether a text holds a pattern nowhere.
pub open spec fn lacks(s: Seq<char>, pattern: Seq<char>) -> bool {
    forall|i: int|
        0 <= i && i + pattern.len() <= s.len() ==> #[trigger] s.subrange(i, i + pattern.len())
            != pattern
}

/// The address for a device is the server's with the scheme of a WebSocket in
/// place of its own, secure where the server's is, and the path of the device
/// behind it. Nothing else of it is changed.
pub proof fn device_address_changes_the_scheme_only(rest: Seq<char>)
    requires
        lacks(rest, "http://"@),
        lacks(rest, "https://"@),
    ensures
        device_url("https://"@ + rest) == "wss://"@ + rest + "/api/ws/device"@,
        device_url("http://"@ + rest) == "ws://"@ + rest + "/api/ws/device"@,
        device_url(rest) == rest + "/api/ws/device"@,
{
    reveal_strlit("https://");
    reveal_strlit("http://");
    reveal_strlit("wss://");
    reveal_strlit("ws://");
    lemma_pattern_behind("https://"@, rest, "https://"@);
    lemma_pattern_behind("wss://"@, rest, "http://"@);
    lemma_pattern_behind("http://"@, rest, "https://"@);
    lemma_pattern_behind("http://"@, rest, "http://"@);
    lemma_replaced_at_front("https://"@, rest, "wss://"@);
    lemma_replaced_at_front("http://"@, rest, "ws://"@);
    let secure = "wss://"@ + rest;
    let open = "http://"@ + rest;
    assert(lacks(secure, "http://"@)) by {
        assert forall|i: int| 0 <= i && i + 7 <= secure.len() implies #[trigger] secure.subrange(
            i,
            i + 7,
        ) != "http://"@ by {
            if i < 6 {
                assert(secure.subrange(i, i + 7)[0] == "wss://"@[i]);
            }
        }
    }
    assert(lacks(open, "https://"@)) by {
        assert forall|i: int| 0 <= i && i + 8 <= open.len() implies #[trigger] open.subrange(
            i,
            i + 8,
        ) != "https://"@ by {
            if i == 0 {
                assert(open.subrange(i, i + 8)[4] == ':');
            } else if i < 7 {
                assert(open.subrange(i, i + 8)[0] == "http://"@[i]);
            }
        }
    }
    lemma_nothing_to_replace(secure, "http://"@, "ws://"@);
    lemma_nothing_to_replace(open, "https://"@, "wss://"@);
    lemma_nothing_to_replace(rest, "https://"@, "wss://"@);
    lemma_nothing_to_replace(rest, "http://"@, "ws://"@);
}

proof fn lemma_pattern_behind(front: Seq<char>, rest: Seq<char>, pattern: Seq<char>)
    requires
        lacks(rest, pattern),
    ensures
        forall|i: int|
            front.len() <= i && i + pattern.len() <= front.len() + rest.len()
                ==> #[trigger] (front + rest).subrange(i, i + pattern.len()) != pattern,
{
    let s = front + rest;
    assert forall|i: int|
        front.len() <= i && i + pattern.len() <= s.len() implies #[trigger] s.subrange(
        i,
        i + pattern.len(),
    ) != pattern by {
        let at = i - front.len();
        assert(s.subrange(i, i + pattern.len()) =~= rest.subrange(at, at + pattern.len()));
    }
}

proof fn lemma_nothing_to_replace(s: Seq<char>, from: Seq<char>, to: Seq<char>)
    requires
        lacks(s, from),
        from.len() > 0,
    ensures
        replaced_from(s, 0, from, to) == s,
{
    replacing_goes_left_to_right(s, 0, s.len() as int, from, to);
    assert(s.skip(0) =~= s);
}

proof fn lemma_replaced_at_front(from: Seq<char>, rest: Seq<char>, to: Seq<char>)
    requires
        from.len() > 0,
        lacks(rest, from),
    ensures
        replaced_from(from + rest, 0, from, to) == to + rest,
{
    let s = from + rest;
    let n = from.len() as int;
    lemma_pattern_behind(from, rest, from);
    assert(s.subrange(0, n) =~= from);
    replacing_goes_left_to_right(s, 0, 0, from, to);
    replacing_goes_left_to_right(s, n, s.len() as int, from, to);
    assert(s.skip(n) =~= rest);
    assert(s.subrange(0, 0) + to + rest =~= to + rest);
}

/// Every answer is a consent but an error and a refused token. The reason is the
/// one that the answer gives, and unknown where it gives none.
pub proof fn errors_alone_are_no_consent(reply: Map<Seq<char>, Json>)
    ensures
        ({
            let kind = reply["type"@];
            let refused = reply.contains_key("type"@) && (kind == Json::Text("error"@) || kind
                == Json::Text("auth.error"@));
            let given = consent(Json::Object(reply));
            let told = reply.contains_key("payload"@) && (reply["payload"@]
                matches Json::Object(payload) && payload.contains_key("message"@)
                && payload["message"@] is Text);
            &&& given is Ok <==> !refused
            &&& refused && told ==> given == Err::<(), Seq<char>>(
                reply["payload"@]->Object_0["message"@]->Text_0,
            )
            &&& refused && !told ==> given == Err::<(), Seq<char>>("unknown error"@)
        }),
        forall|json: Json| !(json is Object) ==> #[trigger] consent(json) is Ok,
{
    reveal_strlit("error");
    reveal_strlit("auth.error");
    assert("error"@.len() == 5);
    assert("auth.error"@.len() == 10);
}

/// One answer alone lets us in. A refused token is told with its reason, and any
/// other answer with its type.
pub proof fn one_answer_lets_us_in(reply: Map<Seq<char>, Json>)
    ensures
        ({
            let kind = if reply.contains_key("type"@) && reply["type"@] is Text {
                reply["type"@]->Text_0
            } else {
                Seq::empty()
            };
            let reason = if reply.contains_key("payload"@) && (reply["payload"@]
                matches Json::Object(payload) && payload.contains_key("message"@)
                && payload["message"@] is Text) {
                reply["payload"@]->Object_0["message"@]->Text_0
            } else {
                "unknown"@
            };
            let let_in = admission_in(Json::Object(reply));
            &&& let_in is Ok <==> kind == "auth.ok"@
            &&& kind == "auth.error"@ ==> let_in == Err::<(), Seq<char>>("auth failed: "@ + reason)
            &&& kind != "auth.ok"@ && kind != "auth.error"@ ==> let_in == Err::<(), Seq<char>>(
                "unexpected auth response: "@ + kind,
            )
        }),
{
    reveal_strlit("auth.ok");
    reveal_strlit("auth.error");
    assert("auth.ok"@.len() == 7);
    assert("auth.error"@.len() == 10);
}

/// Only text that is JSON is an answer. Everything else fails with a reason of
/// its own, which names what went wrong on the way.
pub proof fn only_text_is_an_answer(reason: String, text: String)
    ensures
        reply_in(Incoming::Timeout) == Err::<Json, Seq<char>>("response timeout"@),
        reply_in(Incoming::Closed) == Err::<Json, Seq<char>>("connection closed"@),
        reply_in(Incoming::Failed(reason)) == Err::<Json, Seq<char>>("read failed: "@ + reason@),
        reply_in(Incoming::Other) == Err::<Json, Seq<char>>("unexpected non-text response"@),
        match crate::json::parsed(text@) {
            Ok(json) => reply_in(Incoming::Text(text)) == Ok::<Json, Seq<char>>(json)
                && admission(Incoming::Text(text)) == admission_in(json),
            Err(wrong) => reply_in(Incoming::Text(text)) == Err::<Json, Seq<char>>(
                "invalid response: "@ + wrong,
            ) && admission(Incoming::Text(text)) == Err::<(), Seq<char>>(
                "invalid auth response: "@ + wrong,
            ),
        },
        admission(Incoming::Timeout) == Err::<(), Seq<char>>("auth timeout"@),
        admission(Incoming::Closed) == Err::<(), Seq<char>>("connection closed during auth"@),
        admission(Incoming::Failed(reason)) == Err::<(), Seq<char>>(
            "auth read failed: "@ + reason@,
        ),
        admission(Incoming::Other) == Err::<(), Seq<char>>("unexpected non-text auth response"@),
{
}

} // verus!
