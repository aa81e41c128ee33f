//! The link to the cloud, in the terms of contracts: its state, what happens to
//! it, and what follows.
use vstd::prelude::*;
use vstd::utf8::encode_utf8;

use super::action::{stops, Deed};
use super::answer::{admission, consent, device_url, outcome_text, reply_in, Incoming};
use super::frame::{link_frame, link_frame_in, socket_frame, FRAME_DATA, FRAME_RESIZE};
use super::local::{Happening, ProxyEvent};
use super::message::{is_message, lemma_flat_is_plain, message, named_terminal, PAYLOAD_DEPTH};
use super::proxy::{
    fresh, nothing_exposed, request_works, socket_works, with_url, ExposedPort, Exposure, Proxy,
    Work, WsWrite, FRAME_PROXY_RESPONSE_BODY, FRAME_PROXY_WS_DATA, WS_SUBTYPE_BINARY,
    WS_SUBTYPE_TEXT,
};
use crate::credential::Credential;
use crate::emulator::{can_take, redraw_of, size_of, EmulatorInput};
use crate::ipc::message::ProxyPortInfo;
use crate::json::{
    as_text, member, obj1, obj2, obj3, plain, text_members, text_or, unsigned_or, Json,
};
use crate::table::Entries;
use crate::text::{decimal_digits, text_option};
use crate::wire::from_be16;

verus! {

/// The longest wait between two attempts to connect, in seconds.
pub const MAX_BACKOFF: u64 = 30;

/// How long the connection stays when no terminal is shared, in seconds.
pub const DISCONNECT_DELAY: u64 = 30;

/// A shared terminal as contracts speak of it: its name, and what its emulator
/// has been given.
pub struct Shared {
    pub name: Option<Seq<char>>,
    pub given: Seq<EmulatorInput>,
}

/// The state of the link to the cloud as contracts speak of it.
#[verifier::ext_equal]
pub struct Link {
    /// The terminals that are shared.
    pub terminals: Entries<Shared>,
    /// The terminals that are to be shared again after a restart.
    pub synced: Entries<()>,
    /// Whether there is a connection.
    pub connected: bool,
    /// How far an attempt to connect has come.
    pub handshake: Handshake,
    /// How long to wait before the next attempt to connect, in seconds.
    pub backoff: u64,
    /// When to give the connection up because nothing needs it.
    pub disconnect_at: Option<u64>,
    /// The local ports.
    pub proxy: Proxy,
    /// The ports whose exposure somebody waits for.
    pub waiting: Set<u16>,
}

/// The link before anything has happened.
pub open spec fn idle() -> Link {
    Link {
        terminals: Entries::empty(),
        synced: Entries::empty(),
        connected: false,
        handshake: Handshake::Idle,
        backoff: 1,
        disconnect_at: None,
        proxy: nothing_exposed(),
        waiting: Set::empty(),
    }
}

/// A text message is sent where there is a connection.
pub open spec fn send(link: Link, text: Seq<char>) -> Seq<Deed> {
    if link.connected {
        seq![Deed::SendText(text)]
    } else {
        Seq::empty()
    }
}

/// A binary message is sent where there is a connection.
pub open spec fn send_bytes(link: Link, data: Seq<u8>) -> Seq<Deed> {
    if link.connected {
        seq![Deed::SendBinary(data)]
    } else {
        Seq::empty()
    }
}

/// The link after the connection has gone, with what is to be stopped.
pub open spec fn dropped(link: Link) -> (Link, Seq<Deed>) {
    (
        Link {
            connected: false,
            proxy: Proxy {
                requests: Entries::empty(),
                sockets: Entries::empty(),
                ..link.proxy
            },
            ..link
        },
        stops(request_works(link.proxy.requests.keys) + socket_works(link.proxy.sockets.keys)),
    )
}

/// A number as a port: its lowest sixteen bits.
pub open spec fn as_port(n: u64) -> u16 {
    (n % 0x1_0000) as u16
}

/// The values of a header as JSON: one value is a text, several are a list.
pub open spec fn header_json(values: Seq<Seq<char>>) -> Json {
    if values.len() == 1 {
        Json::Text(values[0])
    } else {
        Json::List(Seq::new(values.len(), |i: int| Json::Text(values[i])))
    }
}

/// The headers of a response as JSON.
pub open spec fn headers_json(headers: Entries<Seq<Seq<char>>>) -> Json {
    Json::Object(
        Map::new(|name: Seq<char>| headers.contains(name), |name: Seq<char>| header_json(headers.at(name))),
    )
}

/// The head of a response as JSON.
pub open spec fn head_json(id: Seq<char>, status: u16, headers: Entries<Seq<Seq<char>>>) -> Json {
    obj3(
        "requestId"@,
        Json::Text(id),
        "status"@,
        Json::Unsigned(status as u64),
        "headers"@,
        headers_json(headers),
    )
}

/// The head of a response can be read again.
pub proof fn lemma_head_is_plain(id: Seq<char>, status: u16, headers: Entries<Seq<Seq<char>>>)
    ensures
        plain(head_json(id, status, headers), PAYLOAD_DEPTH as nat),
{
    let depth = PAYLOAD_DEPTH as nat;
    let lines = headers_json(headers)->Object_0;
    assert forall|name: Seq<char>| #[trigger] lines.contains_key(name) implies plain(
        lines[name],
        (depth - 2) as nat,
    ) by {
        let values = headers.at(name);
        if values.len() != 1 {
            let list = header_json(values)->List_0;
            assert forall|i: int| 0 <= i < list.len() implies plain(
                #[trigger] list[i],
                (depth - 3) as nat,
            ) by {}
        }
    }
    assert(plain(headers_json(headers), (depth - 1) as nat));
    let members = head_json(id, status, headers)->Object_0;
    assert forall|key: Seq<char>| #[trigger] members.contains_key(key) implies plain(
        members[key],
        (depth - 1) as nat,
    ) by {}
}

/// The link after something has happened on a local port, with what is to be
/// done.
pub open spec fn on_happening(link: Link, happening: Happening) -> (Link, Seq<Deed>) {
    match happening {
        Happening::Head { id, status, headers } => (
            link,
            send(
                link,
                message("proxy.response.head"@, head_json(id, status, headers)),
            ),
        ),
        Happening::Body { id, data } => (
            link,
            send_bytes(link, link_frame(id, FRAME_PROXY_RESPONSE_BODY, data)),
        ),
        Happening::End { id } => (
            without_request(link, id),
            send(link, message("proxy.response.end"@, obj1("requestId"@, Json::Text(id)))),
        ),
        Happening::Error { id, message: reason } => (
            without_request(link, id),
            send(link, failure_text("proxy.response.error"@, id, reason)),
        ),
        Happening::WsOpen { id } => (
            link,
            send(link, message("proxy.ws.open"@, obj1("requestId"@, Json::Text(id)))),
        ),
        Happening::WsClose { id, code, reason } => (
            without_socket(link, id),
            stop_socket(link, id) + send(
                link,
                message(
                    "proxy.ws.close"@,
                    obj3(
                        "requestId"@,
                        Json::Text(id),
                        "code"@,
                        Json::Unsigned(code as u64),
                        "reason"@,
                        Json::Text(reason),
                    ),
                ),
            ),
        ),
        Happening::WsError { id, message: reason } => (
            without_socket(link, id),
            stop_socket(link, id) + send(link, failure_text("proxy.ws.error"@, id, reason)),
        ),
        Happening::WsData { id, is_text, data } => (
            link,
            send_bytes(
                link,
                socket_frame(
                    id,
                    if is_text {
                        WS_SUBTYPE_TEXT
                    } else {
                        WS_SUBTYPE_BINARY
                    },
                    data,
                ),
            ),
        ),
    }
}

/// The link without a request.
pub open spec fn without_request(link: Link, id: Seq<char>) -> Link {
    Link { proxy: Proxy { requests: link.proxy.requests.remove(id), ..link.proxy }, ..link }
}

/// The link without a WebSocket.
pub open spec fn without_socket(link: Link, id: Seq<char>) -> Link {
    Link { proxy: Proxy { sockets: link.proxy.sockets.remove(id), ..link.proxy }, ..link }
}

/// What stops a request that is under way.
pub open spec fn stop_request(link: Link, id: Seq<char>) -> Seq<Deed> {
    if link.proxy.requests.contains(id) {
        seq![Deed::Stop(Work::Request(id))]
    } else {
        Seq::empty()
    }
}

/// What stops a WebSocket that is there.
pub open spec fn stop_socket(link: Link, id: Seq<char>) -> Seq<Deed> {
    if link.proxy.sockets.contains(id) {
        seq![Deed::Stop(Work::Socket(id))]
    } else {
        Seq::empty()
    }
}

/// The message that a request or a WebSocket has failed.
pub open spec fn failure_text(kind: Seq<char>, id: Seq<char>, reason: Seq<char>) -> Seq<char> {
    message(kind, obj2("requestId"@, Json::Text(id), "message"@, Json::Text(reason)))
}

/// The link after a shared terminal has been given something.
pub open spec fn feed(link: Link, id: Seq<char>, input: EmulatorInput) -> Link {
    let shared = link.terminals.at(id);
    Link {
        terminals: link.terminals.insert(
            id,
            Shared { name: shared.name, given: shared.given.push(input) },
        ),
        ..link
    }
}

/// The link after a terminal has written something, with what is to be done.
pub open spec fn on_output(link: Link, id: Seq<char>, data: Seq<u8>) -> (Link, Seq<Deed>) {
    if link.terminals.contains(id) {
        (
            feed(link, id, EmulatorInput::Bytes(data)),
            send_bytes(link, link_frame(id, FRAME_DATA, data)),
        )
    } else {
        (link, Seq::empty())
    }
}

/// The link without a shared terminal. When that was the last one, the
/// connection is to be given up after a while.
pub open spec fn unshared(link: Link, id: Seq<char>, now: u64) -> Link {
    let terminals = link.terminals.remove(id);
    Link {
        terminals,
        synced: link.synced.remove(id),
        disconnect_at: if terminals.keys.len() == 0 {
            Some((now + DISCONNECT_DELAY) as u64)
        } else {
            link.disconnect_at
        },
        ..link
    }
}

/// The link after the program in a terminal has ended, with what is to be done.
pub open spec fn on_exit(link: Link, id: Seq<char>, now: u64) -> (Link, Seq<Deed>) {
    if link.terminals.contains(id) {
        (
            unshared(link, id, now),
            send(link, message("terminal.exited"@, obj1("terminalId"@, Json::Text(id)))),
        )
    } else {
        (link, Seq::empty())
    }
}

/// Whether a clock can be read so much ahead.
pub open spec fn clock_fits(now: u64) -> bool {
    now + DISCONNECT_DELAY <= u64::MAX
}

/// What the program in a terminal does.
pub enum TerminalEvent {
    Output { id: String, data: Vec<u8> },
    Exited { id: String },
}

/// The link after a terminal event, with what is to be done.
pub open spec fn on_terminal(link: Link, event: TerminalEvent, now: u64) -> (Link, Seq<Deed>) {
    match event {
        TerminalEvent::Output { id, data } => on_output(link, id@, data@),
        TerminalEvent::Exited { id } => on_exit(link, id@, now),
    }
}

/// The link after a binary message from the cloud, with what is to be done.
pub open spec fn on_binary(link: Link, data: Seq<u8>) -> (Link, Seq<Deed>) {
    match link_frame_in(data) {
        None => (link, Seq::empty()),
        Some(frame) => {
            let id = frame.id;
            let payload = frame.payload;
            if frame.kind == FRAME_DATA && link.terminals.contains(id) {
                (link, seq![Deed::WritePty { id, data: payload }])
            } else if frame.kind == FRAME_RESIZE && payload.len() == 4 && link.terminals.contains(
                id,
            ) {
                let cols = from_be16(payload.subrange(0, 2));
                let rows = from_be16(payload.subrange(2, 4));
                (
                    feed(link, id, EmulatorInput::Resize { rows, cols }),
                    seq![Deed::ResizePty { id, cols, rows }],
                )
            } else if frame.kind == FRAME_PROXY_WS_DATA && payload.len() > 0
                && link.proxy.sockets.contains(id) {
                (
                    link,
                    seq![
                        Deed::ToSocket {
                            id,
                            message: WsWrite::Data {
                                is_text: payload[0] == WS_SUBTYPE_TEXT,
                                payload: payload.skip(1),
                            },
                            wait: false,
                        },
                    ],
                )
            } else {
                (link, Seq::empty())
            }
        },
    }
}

/// Whether a binary message gives a terminal a size without rows or columns.
pub open spec fn resizes_away(data: Seq<u8>) -> bool {
    link_frame_in(data) matches Some(frame) && frame.kind == FRAME_RESIZE && frame.payload.len()
        == 4 && (from_be16(frame.payload.subrange(0, 2)) == 0 || from_be16(
        frame.payload.subrange(2, 4),
    ) == 0)
}

/// What shows a terminal to somebody who starts watching it: its size, and bytes
/// that draw what it shows.
pub open spec fn on_attach(link: Link, id: Seq<char>) -> Seq<Deed> {
    if link.terminals.contains(id) {
        let given = link.terminals.at(id).given;
        let size = size_of(given);
        send(
            link,
            message(
                "terminal.snapshot"@,
                obj3(
                    "terminalId"@,
                    Json::Text(id),
                    "rows"@,
                    Json::Unsigned(size.0 as u64),
                    "cols"@,
                    Json::Unsigned(size.1 as u64),
                ),
            ),
        ) + send_bytes(link, link_frame(id, FRAME_DATA, redraw_of(given)))
    } else {
        Seq::empty()
    }
}

/// A request or an upgrade as the cloud asks for it.
pub struct Asked {
    pub id: Seq<char>,
    pub method: Seq<char>,
    pub path: Seq<char>,
    pub port: u16,
    pub headers: Map<Seq<char>, Seq<char>>,
}

/// What a payload asks for. What is missing is filled in.
pub open spec fn asked(payload: Json) -> Asked {
    Asked {
        id: text_or(member(payload, "requestId"@), Seq::empty()),
        method: text_or(member(payload, "method"@), "GET"@),
        path: text_or(member(payload, "path"@), "/"@),
        port: as_port(unsigned_or(member(payload, "port"@), 0)),
        headers: text_members(member(payload, "headers"@)),
    }
}

/// Whether something that the cloud asks for can be served: it has to name
/// itself and a port.
pub open spec fn servable(ask: Asked) -> bool {
    ask.port != 0 && ask.id.len() > 0
}

/// The link after the cloud has asked for a request, with what is to be done.
pub open spec fn on_request(link: Link, payload: Json) -> (Link, Seq<Deed>) {
    let ask = asked(payload);
    if servable(ask) {
        (
            Link {
                proxy: Proxy {
                    requests: link.proxy.requests.insert(ask.id, ask.port),
                    ..link.proxy
                },
                ..link
            },
            seq![
                Deed::StartRequest {
                    id: ask.id,
                    method: ask.method,
                    port: ask.port,
                    path: ask.path,
                    headers: ask.headers,
                },
            ],
        )
    } else {
        (
            link,
            send(
                link,
                failure_text("proxy.response.error"@, ask.id, "invalid port or requestId"@),
            ),
        )
    }
}

/// The link after the cloud has asked for a WebSocket, with what is to be done.
pub open spec fn on_upgrade(link: Link, payload: Json) -> (Link, Seq<Deed>) {
    let ask = asked(payload);
    if servable(ask) {
        (
            Link {
                proxy: Proxy {
                    sockets: link.proxy.sockets.insert(ask.id, ask.port),
                    ..link.proxy
                },
                ..link
            },
            seq![
                Deed::StartSocket {
                    id: ask.id,
                    port: ask.port,
                    path: ask.path,
                    headers: ask.headers,
                },
            ],
        )
    } else {
        (
            link,
            send(link, failure_text("proxy.ws.error"@, ask.id, "invalid port or requestId"@)),
        )
    }
}

/// What tells the one who waits for a port how it went.
pub open spec fn answer(link: Link, port: u16, result: Result<Seq<char>, Seq<char>>) -> Seq<Deed> {
    if link.waiting.contains(port) {
        seq![Deed::ReplyExpose { port, result }]
    } else {
        Seq::empty()
    }
}

/// The link after a port has been exposed, with what is to be done.
pub open spec fn on_exposed(link: Link, payload: Json) -> (Link, Seq<Deed>) {
    let port = as_port(unsigned_or(member(payload, "port"@), 0));
    let url = text_or(member(payload, "url"@), Seq::empty());
    (
        Link {
            proxy: Proxy { ports: with_url(link.proxy.ports, port, url), ..link.proxy },
            waiting: link.waiting.remove(port),
            ..link
        },
        answer(link, port, Ok(url)),
    )
}

/// The link after a port could not be exposed, with what is to be done.
pub open spec fn on_not_exposed(link: Link, payload: Json) -> (Link, Seq<Deed>) {
    let port = as_port(unsigned_or(member(payload, "port"@), 0));
    let reason = text_or(member(payload, "message"@), "unknown error"@);
    (
        Link {
            proxy: Proxy { ports: link.proxy.ports.remove(port), ..link.proxy },
            waiting: link.waiting.remove(port),
            ..link
        },
        answer(link, port, Err(reason)),
    )
}

/// The link after the cloud has ended a WebSocket, with what is to be done.
pub open spec fn on_socket_end(link: Link, payload: Json) -> (Link, Seq<Deed>) {
    let id = text_or(member(payload, "requestId"@), Seq::empty());
    let code = as_port(unsigned_or(member(payload, "code"@), 1000));
    let reason = text_or(member(payload, "reason"@), Seq::empty());
    let goodbye = if link.proxy.sockets.contains(id) {
        seq![Deed::ToSocket { id, message: WsWrite::Close { code, reason }, wait: true }]
    } else {
        Seq::empty()
    };
    (without_socket(link, id), goodbye + stop_socket(link, id))
}

/// The link after a text message from the cloud, with what is to be done.
/// Messages of a type that is not known here change nothing.
pub open spec fn on_text(link: Link, msg: Json) -> (Link, Seq<Deed>) {
    let kind = text_or(member(msg, "type"@), Seq::empty());
    let payload = member(msg, "payload"@);
    if kind == "terminal.web-attach"@ {
        match as_text(member(payload, "terminalId"@)) {
            Some(id) => (link, on_attach(link, id)),
            None => (link, Seq::empty()),
        }
    } else if kind == "terminal.create"@ {
        (link, seq![Deed::CreateTerminal { name: as_text(member(payload, "name"@)) }])
    } else if kind == "terminal.kill"@ {
        match as_text(member(payload, "terminalId"@)) {
            Some(id) => (
                link,
                seq![Deed::KillTerminal { id, shared: link.terminals.contains(id) }],
            ),
            None => (link, Seq::empty()),
        }
    } else if kind == "proxy.expose.ok"@ {
        on_exposed(link, payload)
    } else if kind == "proxy.expose.error"@ {
        on_not_exposed(link, payload)
    } else if kind == "proxy.request.head"@ {
        on_request(link, payload)
    } else if kind == "proxy.request.cancel"@ {
        let id = text_or(member(payload, "requestId"@), Seq::empty());
        (without_request(link, id), stop_request(link, id))
    } else if kind == "proxy.ws.upgrade"@ {
        on_upgrade(link, payload)
    } else if kind == "proxy.ws.close"@ {
        on_socket_end(link, payload)
    } else {
        (link, Seq::empty())
    }
}

/// Whether a list names each exposed port once, with what is known of it.
pub open spec fn lists_ports(ports: Map<u16, Exposure>, listed: Seq<Exposure>) -> bool {
    &&& forall|i: int|
        0 <= i < listed.len() ==> ports.contains_key((#[trigger] listed[i]).port)
            && ports[listed[i].port] == listed[i]
    &&& forall|i: int, k: int|
        0 <= i < k < listed.len() ==> (#[trigger] listed[i]).port != (#[trigger] listed[k]).port
    &&& forall|port: u16| #[trigger]
        ports.contains_key(port) ==> exists|i: int|
            0 <= i < listed.len() && (#[trigger] listed[i]).port == port
}

/// The exposures that a list of ports stands for.
pub open spec fn exposure_list(listed: Seq<ExposedPort>) -> Seq<Exposure> {
    Seq::new(listed.len(), |i: int| listed[i]@)
}

/// The shared terminals as JSON.
pub open spec fn terminals_json(terminals: Entries<Shared>) -> Json {
    Json::List(
        Seq::new(
            terminals.keys.len(),
            |i: int| named_terminal(
                "id"@,
                terminals.keys[i],
                terminals.at(terminals.keys[i]).name,
            ),
        ),
    )
}

/// Exposed ports as JSON.
pub open spec fn ports_json(listed: Seq<Exposure>) -> Json {
    Json::List(
        Seq::new(
            listed.len(),
            |i: int| obj2(
                "port"@,
                Json::Unsigned(listed[i].port as u64),
                "public"@,
                Json::Bool(listed[i].public),
            ),
        ),
    )
}

/// All that is shared as JSON, with the exposed ports in a given order.
pub open spec fn status_json(link: Link, listed: Seq<Exposure>) -> Json {
    obj2(
        "syncedTerminals"@,
        terminals_json(link.terminals),
        "exposedPorts"@,
        ports_json(listed),
    )
}

/// The message that tells the cloud all that is shared, with the exposed ports
/// in a given order.
pub open spec fn status_text(link: Link, listed: Seq<Exposure>) -> Seq<char> {
    message("device.status"@, status_json(link, listed))
}

/// What tells all that is shared can be read again.
pub proof fn lemma_status_is_plain(link: Link, listed: Seq<Exposure>)
    ensures
        plain(status_json(link, listed), PAYLOAD_DEPTH as nat),
{
    let depth = PAYLOAD_DEPTH as nat;
    let terminals = terminals_json(link.terminals)->List_0;
    assert forall|i: int| 0 <= i < terminals.len() implies plain(
        #[trigger] terminals[i],
        (depth - 2) as nat,
    ) by {
        lemma_flat_is_plain(terminals[i]->Object_0);
    }
    let ports = ports_json(listed)->List_0;
    assert forall|i: int| 0 <= i < ports.len() implies plain(
        #[trigger] ports[i],
        (depth - 2) as nat,
    ) by {
        lemma_flat_is_plain(ports[i]->Object_0);
    }
    assert(plain(terminals_json(link.terminals), (depth - 1) as nat));
    assert(plain(ports_json(listed), (depth - 1) as nat));
    let members = status_json(link, listed)->Object_0;
    assert forall|key: Seq<char>| #[trigger] members.contains_key(key) implies plain(
        members[key],
        (depth - 1) as nat,
    ) by {}
}

/// The next wait between two attempts to connect: twice as long, up to a limit.
pub open spec fn bumped(backoff: u64) -> u64 {
    if backoff * 2 <= MAX_BACKOFF {
        (backoff * 2) as u64
    } else {
        MAX_BACKOFF
    }
}

/// How an attempt to connect has gone on.
pub enum ConnectEvent {
    /// It is to begin.
    Begin,
    /// The cloud was called.
    Dialed(Result<(), String>),
    /// The token was sent.
    AuthSent(Result<(), String>),
    /// The cloud answered.
    Answer(Incoming),
    /// All that is shared was sent.
    StatusSent(Result<(), String>),
}

/// How far an attempt to connect has come.
#[derive(Debug, Clone, Copy, PartialEq, Eq, Structural)]
pub enum Handshake {
    /// There is none.
    Idle,
    /// The cloud is being called.
    Dialing,
    /// The token is being sent.
    Authenticating,
    /// The answer is awaited.
    Awaiting,
    /// All that is shared is being sent.
    Reporting,
}

/// Whether an event is what comes next in an attempt to connect. A new attempt
/// may begin at any time.
pub open spec fn comes_next(handshake: Handshake, event: ConnectEvent) -> bool {
    match event {
        ConnectEvent::Begin => true,
        ConnectEvent::Dialed(_) => handshake == Handshake::Dialing,
        ConnectEvent::AuthSent(_) => handshake == Handshake::Authenticating,
        ConnectEvent::Answer(_) => handshake == Handshake::Awaiting,
        ConnectEvent::StatusSent(_) => handshake == Handshake::Reporting,
    }
}

/// How an attempt to connect is to go on.
#[derive(Debug)]
pub enum ConnectStep {
    /// Call the cloud.
    Dial { url: String },
    /// Send the token.
    SendAuth { text: String },
    /// Wait for the answer.
    AwaitAnswer,
    /// Keep the connection and send all that is shared.
    SendStatus { text: String },
    /// It is over.
    Done(Result<(), String>),
}

/// How an attempt to connect is to go on, as contracts speak of it.
pub enum Connecting {
    Dial(Seq<char>),
    SendAuth(Seq<char>),
    AwaitAnswer,
    SendStatus(Seq<char>),
    Done(Result<(), Seq<char>>),
}

impl View for ConnectStep {
    type V = Connecting;

    open spec fn view(&self) -> Connecting {
        match *self {
            ConnectStep::Dial { url } => Connecting::Dial(url@),
            ConnectStep::SendAuth { text } => Connecting::SendAuth(text@),
            ConnectStep::AwaitAnswer => Connecting::AwaitAnswer,
            ConnectStep::SendStatus { text } => Connecting::SendStatus(text@),
            ConnectStep::Done(r) => Connecting::Done(outcome_text(r)),
        }
    }
}

/// The link after an attempt to connect has gone on, how it is to go on, and
/// what else is to be done. `listed` is an order of the exposed ports.
pub open spec fn on_connect(
    link: Link,
    cred: Credential,
    event: ConnectEvent,
    listed: Seq<Exposure>,
) -> (Link, Connecting, Seq<Deed>) {
    match event {
        ConnectEvent::Begin => if link.connected {
            (
                Link { handshake: Handshake::Idle, ..link },
                Connecting::Done(Ok(())),
                Seq::empty(),
            )
        } else {
            (
                Link { handshake: Handshake::Dialing, ..link },
                Connecting::Dial(device_url(cred.server_url@)),
                Seq::empty(),
            )
        },
        ConnectEvent::Dialed(Err(reason)) => (
            Link { handshake: Handshake::Idle, backoff: bumped(link.backoff), ..link },
            Connecting::Done(Err("WebSocket connect failed: "@ + reason@)),
            Seq::empty(),
        ),
        ConnectEvent::Dialed(Ok(_)) => (
            Link { handshake: Handshake::Authenticating, ..link },
            Connecting::SendAuth(message("auth"@, obj1("token"@, Json::Text(cred.token@)))),
            Seq::empty(),
        ),
        ConnectEvent::AuthSent(Err(reason)) => (
            Link { handshake: Handshake::Idle, ..link },
            Connecting::Done(Err("auth send failed: "@ + reason@)),
            Seq::empty(),
        ),
        ConnectEvent::AuthSent(Ok(_)) => (
            Link { handshake: Handshake::Awaiting, ..link },
            Connecting::AwaitAnswer,
            Seq::empty(),
        ),
        ConnectEvent::Answer(incoming) => match admission(incoming) {
            Err(reason) => (
                Link { handshake: Handshake::Idle, ..link },
                Connecting::Done(Err(reason)),
                Seq::empty(),
            ),
            Ok(_) => {
                let now = Link {
                    connected: true,
                    handshake: Handshake::Reporting,
                    backoff: 1,
                    ..link
                };
                (now, Connecting::SendStatus(status_text(now, listed)), Seq::empty())
            },
        },
        ConnectEvent::StatusSent(Err(reason)) => {
            let now = Link { handshake: Handshake::Idle, ..link };
            (dropped(now).0, Connecting::Done(Err(reason@)), dropped(now).1)
        },
        ConnectEvent::StatusSent(Ok(_)) => (
            Link { handshake: Handshake::Idle, ..link },
            Connecting::Done(Ok(())),
            Seq::empty(),
        ),
    }
}

/// What the rest of the program asks of the link to the cloud.
#[derive(Debug)]
pub enum CloudCommand {
    /// Share a terminal.
    Sync { id: String, name: Option<String> },
    /// Take a terminal back.
    Unsync { id: String },
    /// Expose a local port.
    ProxyExpose { port: u16, public: bool },
    /// Take a local port back.
    ProxyUnexpose { port: u16 },
    /// List the exposed ports.
    ProxyList,
}

/// What is left to do of a command once something has been tried.
#[derive(Debug)]
pub enum Pending {
    /// The cloud has been asked to take a terminal.
    Sync { id: String, name: Option<String> },
    /// The cloud has been asked to let a terminal go.
    Unsync { id: String },
    /// A connection for exposing a port has been sought.
    Expose { port: u16, public: bool },
    /// The cloud has been asked to expose a port.
    ExposeSent { port: u16 },
    /// A connection for taking a port back has been sought.
    Unexpose { port: u16 },
    /// The cloud has been asked to take a port back.
    UnexposeSent { port: u16 },
}

/// How a command is to go on.
#[derive(Debug)]
pub enum CloudStep {
    /// Answer the one who gave the command.
    Reply(Result<(), String>),
    /// Answer the one who wants to know an address.
    ReplyUrl(Result<String, String>),
    /// Answer the one who wants to know the exposed ports.
    ReplyPorts(Vec<ProxyPortInfo>),
    /// Connect, send a message, wait for the consent, and go on.
    Confirm { text: String, then_do: Pending },
    /// Connect and go on.
    Connect { then_do: Pending },
    /// Send a message and go on.
    Send { text: String, then_do: Pending },
    /// Nothing more: the answer comes from the cloud.
    Wait,
}

/// What is left to do of a command, as contracts speak of it.
pub enum Due {
    Sync { id: Seq<char>, name: Option<Seq<char>> },
    Unsync { id: Seq<char> },
    Expose { port: u16, public: bool },
    ExposeSent { port: u16 },
    Unexpose { port: u16 },
    UnexposeSent { port: u16 },
}

impl View for Pending {
    type V = Due;

    open spec fn view(&self) -> Due {
        match *self {
            Pending::Sync { id, name } => Due::Sync { id: id@, name: text_option(name) },
            Pending::Unsync { id } => Due::Unsync { id: id@ },
            Pending::Expose { port, public } => Due::Expose { port, public },
            Pending::ExposeSent { port } => Due::ExposeSent { port },
            Pending::Unexpose { port } => Due::Unexpose { port },
            Pending::UnexposeSent { port } => Due::UnexposeSent { port },
        }
    }
}

/// How a command is to go on, as contracts speak of it.
pub enum Course {
    Reply(Result<(), Seq<char>>),
    ReplyUrl(Result<Seq<char>, Seq<char>>),
    ReplyPorts(Seq<Exposure>),
    Confirm { text: Seq<char>, due: Due },
    Connect { due: Due },
    Send { text: Seq<char>, due: Due },
    Wait,
}

/// The exposures that a list for the command line stands for.
pub open spec fn port_infos(listed: Seq<ProxyPortInfo>) -> Seq<Exposure> {
    Seq::new(
        listed.len(),
        |i: int| Exposure {
            port: listed[i].port,
            public: listed[i].public,
            url: text_option(listed[i].url),
        },
    )
}

/// Whether what a step sends is a message that can be read again.
pub open spec fn asks_readably(step: CloudStep) -> bool {
    match step {
        CloudStep::Confirm { text, .. } => is_message(text@),
        CloudStep::Send { text, .. } => is_message(text@),
        _ => true,
    }
}

impl View for CloudStep {
    type V = Course;

    open spec fn view(&self) -> Course {
        match *self {
            CloudStep::Reply(r) => Course::Reply(outcome_text(r)),
            CloudStep::ReplyUrl(r) => Course::ReplyUrl(super::action::text_result(r)),
            CloudStep::ReplyPorts(listed) => Course::ReplyPorts(port_infos(listed@)),
            CloudStep::Confirm { text, then_do } => Course::Confirm { text: text@, due: then_do@ },
            CloudStep::Connect { then_do } => Course::Connect { due: then_do@ },
            CloudStep::Send { text, then_do } => Course::Send { text: text@, due: then_do@ },
            CloudStep::Wait => Course::Wait,
        }
    }
}

/// The link after a command has begun, and how it is to go on. `cred` says
/// whether there is a credential, and `listed` is an order of the exposed ports.
pub open spec fn begun(
    link: Link,
    cmd: CloudCommand,
    cred: Result<(), Seq<char>>,
    listed: Seq<Exposure>,
) -> (Link, Course) {
    match cmd {
        CloudCommand::Sync { id, name } => match cred {
            Err(reason) => (link, Course::Reply(Err(reason))),
            Ok(_) => (
                Link { synced: link.synced.insert(id@, ()), disconnect_at: None, ..link },
                Course::Confirm {
                    text: message(
                        "terminal.sync"@,
                        named_terminal("terminalId"@, id@, text_option(name)),
                    ),
                    due: Due::Sync { id: id@, name: text_option(name) },
                },
            ),
        },
        CloudCommand::Unsync { id } => if !link.terminals.contains(id@) {
            (link, Course::Reply(Err("terminal "@ + id@ + " is not synced"@)))
        } else {
            match cred {
                Err(reason) => (link, Course::Reply(Err(reason))),
                Ok(_) => (
                    link,
                    Course::Confirm {
                        text: message("terminal.unsync"@, obj1("terminalId"@, Json::Text(id@))),
                        due: Due::Unsync { id: id@ },
                    },
                ),
            }
        },
        CloudCommand::ProxyExpose { port, public } => match cred {
            Err(reason) => (link, Course::ReplyUrl(Err(reason))),
            Ok(_) => (link, Course::Connect { due: Due::Expose { port, public } }),
        },
        CloudCommand::ProxyUnexpose { port } => if !link.proxy.ports.contains_key(port) {
            (
                link,
                Course::Reply(
                    Err("port "@ + decimal_digits(port as nat) + " is not exposed"@),
                ),
            )
        } else {
            match cred {
                Err(reason) => (link, Course::Reply(Err(reason))),
                Ok(_) => (link, Course::Connect { due: Due::Unexpose { port } }),
            }
        },
        CloudCommand::ProxyList => (link, Course::ReplyPorts(listed)),
    }
}

/// A terminal that has just been shared: an empty screen of the usual size.
pub open spec fn newly_shared(name: Option<Seq<char>>) -> Shared {
    Shared { name, given: seq![EmulatorInput::Start { rows: 24, cols: 80 }] }
}

/// The link after what a command tried has come out, how the command is to go
/// on, and what else is to be done.
pub open spec fn resumed(
    link: Link,
    due: Due,
    outcome: Result<(), Seq<char>>,
    now: u64,
) -> (Link, Course, Seq<Deed>) {
    match due {
        Due::Sync { id, name } => match outcome {
            Err(reason) => (
                Link { synced: link.synced.remove(id), ..link },
                Course::Reply(Err(reason)),
                Seq::empty(),
            ),
            Ok(_) => (
                Link { terminals: link.terminals.insert(id, newly_shared(name)), ..link },
                Course::Reply(Ok(())),
                Seq::empty(),
            ),
        },
        Due::Unsync { id } => match outcome {
            Err(reason) => (link, Course::Reply(Err(reason)), Seq::empty()),
            Ok(_) => (
                unshared(link, id, now),
                Course::Reply(Ok(())),
                if link.terminals.contains(id) {
                    seq![Deed::StopReader(id)]
                } else {
                    Seq::empty()
                },
            ),
        },
        Due::Expose { port, public } => match outcome {
            Err(reason) => (link, Course::ReplyUrl(Err(reason)), Seq::empty()),
            Ok(_) => (
                Link {
                    proxy: Proxy {
                        ports: link.proxy.ports.insert(port, fresh(port, public)),
                        ..link.proxy
                    },
                    waiting: link.waiting.insert(port),
                    ..link
                },
                Course::Send {
                    text: message(
                        "proxy.expose"@,
                        obj2("port"@, Json::Unsigned(port as u64), "public"@, Json::Bool(public)),
                    ),
                    due: Due::ExposeSent { port },
                },
                Seq::empty(),
            ),
        },
        Due::ExposeSent { port } => match outcome {
            Err(_) => {
                let taken_back = Link {
                    proxy: Proxy { ports: link.proxy.ports.remove(port), ..link.proxy },
                    waiting: link.waiting.remove(port),
                    ..link
                };
                (
                    dropped(taken_back).0,
                    Course::Wait,
                    answer(link, port, Err("connection lost"@)) + dropped(taken_back).1,
                )
            },
            Ok(_) => (link, Course::Wait, Seq::empty()),
        },
        Due::Unexpose { port } => match outcome {
            Err(reason) => (link, Course::Reply(Err(reason)), Seq::empty()),
            Ok(_) => (
                link,
                Course::Send {
                    text: message("proxy.unexpose"@, obj1("port"@, Json::Unsigned(port as u64))),
                    due: Due::UnexposeSent { port },
                },
                Seq::empty(),
            ),
        },
        Due::UnexposeSent { port } => match outcome {
            Err(reason) => (link, Course::Reply(Err(reason)), Seq::empty()),
            Ok(_) => (
                Link {
                    proxy: Proxy { ports: link.proxy.ports.remove(port), ..link.proxy },
                    ..link
                },
                Course::Reply(Ok(())),
                Seq::empty(),
            ),
        },
    }
}

/// How asking the cloud for its consent has come out.
pub enum ConfirmEvent {
    /// There was no connection, for this reason.
    NotConnected(String),
    /// The question could not be sent, for this reason.
    NotSent(String),
    /// This came back.
    Answer(Incoming),
}

/// The link after the cloud has been asked for its consent, whether it gave it,
/// and what else is to be done.
pub open spec fn confirmed(link: Link, event: ConfirmEvent) -> (
    Link,
    Result<(), Seq<char>>,
    Seq<Deed>,
) {
    match event {
        ConfirmEvent::NotConnected(reason) => (link, Err(reason@), Seq::empty()),
        ConfirmEvent::NotSent(reason) => (dropped(link).0, Err(reason@), dropped(link).1),
        ConfirmEvent::Answer(incoming) => match reply_in(incoming) {
            Ok(json) => (link, consent(json), Seq::empty()),
            Err(reason) => (dropped(link).0, Err(reason), dropped(link).1),
        },
    }
}

/// How creating a terminal for the cloud has come out.
pub enum CreateOutcome {
    /// There is no terminal, for this reason.
    Refused(String),
    /// There is one, and it is shared.
    Shared { id: String, name: Option<String> },
    /// There is one, but it could not be shared.
    NotShared,
}

/// A name as JSON, which is null where there is none.
pub open spec fn name_json(name: Option<Seq<char>>) -> Json {
    match name {
        Some(n) => Json::Text(n),
        None => Json::Null,
    }
}

/// What tells the cloud how creating a terminal has come out.
pub open spec fn on_created(link: Link, outcome: CreateOutcome) -> Seq<Deed> {
    match outcome {
        CreateOutcome::Refused(reason) => send(
            link,
            message("error"@, obj1("message"@, Json::Text(reason@))),
        ),
        CreateOutcome::Shared { id, name } => send(
            link,
            message(
                "terminal.created"@,
                obj2("terminalId"@, Json::Text(id@), "name"@, name_json(text_option(name))),
            ),
        ),
        CreateOutcome::NotShared => Seq::empty(),
    }
}

/// What tells the cloud that a terminal has been killed.
pub open spec fn on_killed(link: Link, id: Seq<char>, killed: bool) -> Seq<Deed> {
    if killed {
        send(link, message("terminal.killed"@, obj1("terminalId"@, Json::Text(id))))
    } else {
        Seq::empty()
    }
}

/// What happens to the link.
pub enum LinkEvent {
    /// The program in a terminal did something.
    Terminal(TerminalEvent),
    /// Something happened on a local port.
    Proxy(ProxyEvent),
    /// A text message came.
    Text(String),
    /// A binary message came.
    Binary(Vec<u8>),
    /// Another message came.
    OtherMessage,
    /// The connection has ended or failed.
    Ended,
    /// The time to give the connection up has come.
    DisconnectDue,
    /// A sign of life could not be sent.
    HeartbeatFailed,
}

/// The link after its connection has been given up, with what is to be done.
pub open spec fn disconnected(link: Link) -> (Link, Seq<Deed>) {
    (
        Link { connected: false, disconnect_at: None, ..link },
        if link.connected {
            seq![Deed::Close]
        } else {
            Seq::empty()
        },
    )
}

/// The link after something has happened to it, with what is to be done.
pub open spec fn on_event(link: Link, event: LinkEvent, now: u64) -> (Link, Seq<Deed>) {
    match event {
        LinkEvent::Terminal(e) => on_terminal(link, e, now),
        LinkEvent::Proxy(e) => on_happening(link, e@),
        LinkEvent::Text(text) => match crate::json::parsed(text@) {
            Ok(json) => on_text(link, json),
            Err(_) => (link, Seq::empty()),
        },
        LinkEvent::Binary(data) => on_binary(link, data@),
        LinkEvent::OtherMessage => (link, Seq::empty()),
        LinkEvent::Ended => dropped(link),
        LinkEvent::DisconnectDue => disconnected(link),
        LinkEvent::HeartbeatFailed => dropped(link),
    }
}

/// Whether a link can follow a binary message: all but one that gives a shared
/// terminal a size without rows or columns.
pub open spec fn binary_ok(link: Link, data: Seq<u8>) -> bool {
    resizes_away(data) ==> !link.terminals.contains(link_frame_in(data).unwrap().id)
}

/// Whether a link can follow what a terminal writes: where the terminal is
/// shared, its emulator has to take it.
pub open spec fn output_ok(link: Link, id: Seq<char>, data: Seq<u8>) -> bool {
    link.terminals.contains(id) ==> can_take(link.terminals.at(id).given, data)
}

/// Whether a link can follow what the program in a terminal does.
pub open spec fn terminal_ok(link: Link, event: TerminalEvent) -> bool {
    match event {
        TerminalEvent::Output { id, data } => output_ok(link, id@, data@),
        TerminalEvent::Exited { .. } => true,
    }
}

/// Whether a link can follow an event, as far as its terminals go.
pub open spec fn followable(link: Link, event: LinkEvent) -> bool {
    match event {
        LinkEvent::Terminal(e) => terminal_ok(link, e),
        LinkEvent::Binary(data) => binary_ok(link, data@),
        _ => true,
    }
}

/// Whether a link can follow an event.
pub open spec fn event_ok(link: Link, event: LinkEvent) -> bool {
    followable(link, event) && match event {
        LinkEvent::Proxy(e) => e.wf(),
        _ => true,
    }
}

/// Whether a list of deeds sends nothing over the connection.
pub open spec fn silent(list: Seq<Deed>) -> bool {
    forall|i: int|
        0 <= i < list.len() ==> !((#[trigger] list[i]) is SendText) && !(list[i] is SendBinary)
}

/// Without a connection nothing is sent, whatever happens.
pub proof fn nothing_is_sent_without_a_connection(link: Link, event: LinkEvent, now: u64)
    requires
        !link.connected,
    ensures
        silent(on_event(link, event, now).1),
{
}

/// A connection that has gone leaves nothing under way on the local ports, and
/// all that was under way is stopped.
pub proof fn lost_connection_leaves_nothing_under_way(link: Link, id: Seq<char>)
    requires
        link.proxy.requests.wf(),
        link.proxy.sockets.wf(),
    ensures
        ({
            let (now, list) = dropped(link);
            &&& !now.connected
            &&& now.proxy.requests == Entries::<u16>::empty()
            &&& now.proxy.sockets == Entries::<u16>::empty()
            &&& now.proxy.ports == link.proxy.ports
            &&& now.terminals == link.terminals
            &&& link.proxy.requests.contains(id) <==> list.contains(
                Deed::Stop(Work::Request(id)),
            )
            &&& link.proxy.sockets.contains(id) <==> list.contains(Deed::Stop(Work::Socket(id)))
        }),
{
    let requests = link.proxy.requests.keys;
    let sockets = link.proxy.sockets.keys;
    let list = dropped(link).1;
    let all = request_works(requests) + socket_works(sockets);
    assert(requests.contains(id) == link.proxy.requests.map.contains_key(id));
    assert(sockets.contains(id) == link.proxy.sockets.map.contains_key(id));
    if requests.contains(id) {
        let i = requests.index_of(id);
        assert(all[i] == Work::Request(id));
        assert(list[i] == Deed::Stop(Work::Request(id)));
    }
    if sockets.contains(id) {
        let i = sockets.index_of(id);
        assert(all[requests.len() + i] == Work::Socket(id));
        assert(list[requests.len() + i] == Deed::Stop(Work::Socket(id)));
    }
    if list.contains(Deed::Stop(Work::Request(id))) {
        let i = list.index_of(Deed::Stop(Work::Request(id)));
        assert(all[i] == Work::Request(id));
        assert(i < requests.len());
        assert(requests[i] == id);
    }
    if list.contains(Deed::Stop(Work::Socket(id))) {
        let i = list.index_of(Deed::Stop(Work::Socket(id)));
        assert(all[i] == Work::Socket(id));
        assert(i >= requests.len());
        assert(sockets[i - requests.len()] == id);
    }
}

/// The wait between two attempts to connect grows and stays within its limits.
pub proof fn backoff_stays_within_limits(backoff: u64)
    requires
        1 <= backoff <= MAX_BACKOFF,
    ensures
        backoff <= bumped(backoff) <= MAX_BACKOFF,
        backoff < MAX_BACKOFF ==> backoff < bumped(backoff),
{
}

/// A request that cannot be served changes nothing, and the cloud is told why as
/// long as there is a connection. One that can be served is started once.
pub proof fn request_is_started_or_refused(link: Link, payload: Json)
    ensures
        ({
            let (now, list) = on_request(link, payload);
            let ask = asked(payload);
            &&& servable(ask) ==> list.len() == 1 && list[0] is StartRequest
                && now.proxy.requests.contains(ask.id)
            &&& !servable(ask) ==> now == link && list == send(
                link,
                failure_text("proxy.response.error"@, ask.id, "invalid port or requestId"@),
            )
        }),
{
}

/// A request that has ended, failed or been cancelled is no longer under way, and
/// no other one is touched.
pub proof fn finished_request_is_forgotten(link: Link, id: Seq<char>, other: Seq<char>)
    requires
        link.proxy.requests.wf(),
    ensures
        !without_request(link, id).proxy.requests.contains(id),
        other != id ==> without_request(link, id).proxy.requests.contains(other)
            == link.proxy.requests.contains(other),
{
}

/// The one who waits for a port is answered once: a second word from the cloud
/// about the same port answers nobody.
pub proof fn exposure_is_answered_once(link: Link, first: Json, second: Json)
    requires
        as_port(unsigned_or(member(first, "port"@), 0)) == as_port(
            unsigned_or(member(second, "port"@), 0),
        ),
    ensures
        on_exposed(on_exposed(link, first).0, second).1 == Seq::<Deed>::empty(),
        on_not_exposed(on_exposed(link, first).0, second).1 == Seq::<Deed>::empty(),
        on_exposed(on_not_exposed(link, first).0, second).1 == Seq::<Deed>::empty(),
        on_not_exposed(on_not_exposed(link, first).0, second).1 == Seq::<Deed>::empty(),
{
}

/// The last terminal that is taken back or ends arms the farewell, and sharing
/// one disarms it.
pub proof fn farewell_is_armed_by_the_last_terminal(
    link: Link,
    id: Seq<char>,
    now: u64,
    next: String,
    name: Option<String>,
    listed: Seq<Exposure>,
)
    requires
        clock_fits(now),
        link.terminals.wf(),
        link.terminals.keys == seq![id],
    ensures
        unshared(link, id, now).disconnect_at == Some((now + DISCONNECT_DELAY) as u64),
        begun(
            unshared(link, id, now),
            CloudCommand::Sync { id: next, name },
            Ok(()),
            listed,
        ).0.disconnect_at is None,
{
    assert(link.terminals.keys[0] == id);
    assert(link.terminals.keys.contains(id));
    let i = link.terminals.keys.index_of(id);
    assert(link.terminals.keys.remove(i).len() == 0);
}

/// Sharing a terminal and taking it back leaves the shared terminals as they
/// were.
pub proof fn unsync_undoes_sync(link: Link, id: Seq<char>, name: Option<Seq<char>>, now: u64)
    requires
        link.terminals.wf(),
        !link.terminals.contains(id),
    ensures
        ({
            let shared = resumed(link, Due::Sync { id, name }, Ok(()), now).0;
            &&& shared.terminals.contains(id)
            &&& resumed(shared, Due::Unsync { id }, Ok(()), now).0.terminals == link.terminals
        }),
{
    let keys = link.terminals.keys;
    let more = keys.push(id);
    assert(!keys.contains(id));
    assert(more[keys.len() as int] == id);
    assert(more.contains(id));
    let i = more.index_of(id);
    if i < keys.len() {
        assert(keys[i] == id);
    }
    assert(more.remove(i) =~= keys);
    let shared = resumed(link, Due::Sync { id, name }, Ok(()), now).0;
    let back = resumed(shared, Due::Unsync { id }, Ok(()), now).0;
    assert(back.terminals =~= link.terminals);
}

/// A command without a credential changes nothing.
pub proof fn command_without_credential_changes_nothing(
    link: Link,
    cmd: CloudCommand,
    reason: Seq<char>,
    listed: Seq<Exposure>,
)
    ensures
        begun(link, cmd, Err(reason), listed).0 == link,
{
}

/// What a terminal writes reaches the watchers in the cloud and the emulator
/// alike, and touches no other terminal.
pub proof fn output_is_shown_and_remembered(
    link: Link,
    id: Seq<char>,
    data: Seq<u8>,
    other: Seq<char>,
)
    requires
        link.terminals.contains(id),
        link.connected,
        encode_utf8(id).len() <= crate::wire::ID_FIELD,
    ensures
        ({
            let (now, list) = on_output(link, id, data);
            &&& list.len() == 1
            &&& list[0] matches Deed::SendBinary(bytes)
            &&& link_frame_in(bytes) matches Some(frame)
            &&& frame.kind == FRAME_DATA
            &&& frame.id == crate::text::without_nul_tail(id)
            &&& frame.payload == data
            &&& now.terminals.at(id).given == link.terminals.at(id).given.push(
                EmulatorInput::Bytes(data),
            )
            &&& other != id ==> now.terminals.contains(other) == link.terminals.contains(other)
            &&& other != id && link.terminals.contains(other) ==> now.terminals.at(other)
                == link.terminals.at(other)
        }),
{
    super::frame::link_frame_reads_back(id, FRAME_DATA, data);
}

/// A link without a connection gets none by itself, whatever happens to it.
pub proof fn offline_stays_offline(link: Link, event: LinkEvent, now: u64)
    requires
        !link.connected,
    ensures
        !on_event(link, event, now).0.connected,
{
}

/// There is no connection before the cloud has let the device in.
pub proof fn only_an_admission_connects(
    link: Link,
    cred: Credential,
    event: ConnectEvent,
    listed: Seq<Exposure>,
)
    requires
        !link.connected,
        comes_next(link.handshake, event),
        on_connect(link, cred, event, listed).0.connected,
    ensures
        link.handshake == Handshake::Awaiting,
        event matches ConnectEvent::Answer(incoming) && admission(incoming) is Ok,
{
}

/// What has happened in attempts to connect, event by event, each with an order
/// of the exposed ports.
pub type Attempts = Seq<(ConnectEvent, Seq<Exposure>)>;

/// The link after some attempts to connect.
pub open spec fn attempted(link: Link, cred: Credential, events: Attempts) -> Link
    decreases events.len(),
{
    if events.len() == 0 {
        link
    } else {
        let (event, listed) = events.last();
        on_connect(attempted(link, cred, events.drop_last()), cred, event, listed).0
    }
}

/// Whether each event is the one that comes next.
pub open spec fn in_order(link: Link, cred: Credential, events: Attempts) -> bool
    decreases events.len(),
{
    events.len() == 0 || {
        &&& in_order(link, cred, events.drop_last())
        &&& comes_next(attempted(link, cred, events.drop_last()).handshake, events.last().0)
    }
}

/// Whether the four events up to a place are these: a call, the cloud called, the
/// token sent, and an admission.
pub open spec fn let_in_at(events: Attempts, last: int) -> bool {
    &&& 3 <= last < events.len()
    &&& events[last - 3].0 is Begin
    &&& events[last - 2].0 matches ConnectEvent::Dialed(Ok(_))
    &&& events[last - 1].0 matches ConnectEvent::AuthSent(Ok(_))
    &&& events[last].0 matches ConnectEvent::Answer(incoming) && admission(incoming) is Ok
}

/// A link gets connected only after the cloud was called, was sent the token and
/// then let the device in, in this order and with nothing in between.
pub proof fn connected_only_after_the_handshake(link: Link, cred: Credential, events: Attempts)
    requires
        !link.connected,
        link.handshake == Handshake::Idle,
        in_order(link, cred, events),
        attempted(link, cred, events).connected,
    ensures
        exists|last: int| let_in_at(events, last),
{
    lemma_handshake(link, cred, events);
}

proof fn lemma_handshake(link: Link, cred: Credential, events: Attempts)
    requires
        !link.connected,
        link.handshake == Handshake::Idle,
        in_order(link, cred, events),
    ensures
        ({
            let now = attempted(link, cred, events);
            let n = events.len() as int;
            &&& now.connected ==> exists|last: int| let_in_at(events, last)
            &&& now.handshake == Handshake::Dialing ==> n >= 1 && events[n - 1].0 is Begin
            &&& now.handshake == Handshake::Authenticating ==> {
                &&& n >= 2
                &&& events[n - 2].0 is Begin
                &&& events[n - 1].0 matches ConnectEvent::Dialed(Ok(_))
            }
            &&& now.handshake == Handshake::Awaiting ==> {
                &&& n >= 3
                &&& events[n - 3].0 is Begin
                &&& events[n - 2].0 matches ConnectEvent::Dialed(Ok(_))
                &&& events[n - 1].0 matches ConnectEvent::AuthSent(Ok(_))
            }
        }),
    decreases events.len(),
{
    if events.len() > 0 {
        let before = events.drop_last();
        lemma_handshake(link, cred, before);
        let n = events.len() as int;
        let then = attempted(link, cred, before);
        if then.connected {
            let last = choose|last: int| let_in_at(before, last);
            assert(let_in_at(events, last));
        } else if attempted(link, cred, events).connected {
            assert(let_in_at(events, n - 1));
        }
    }
}

/// What is sent once the cloud was called holds the token.
pub proof fn token_opens_the_handshake(
    link: Link,
    cred: Credential,
    event: ConnectEvent,
    listed: Seq<Exposure>,
)
    ensures
        ({
            let (now, step, _) = on_connect(link, cred, event, listed);
            let auth = message("auth"@, obj1("token"@, Json::Text(cred.token@)));
            now.handshake == Handshake::Authenticating <==> step == Connecting::SendAuth(auth)
        }),
{
}

/// Whether every shared terminal is remembered for the next start.
pub open spec fn remembered(link: Link) -> bool {
    forall|id: Seq<char>| #[trigger] link.terminals.contains(id) ==> link.synced.contains(id)
}

/// Whatever happens to the link, every shared terminal stays remembered.
pub proof fn events_keep_terminals_remembered(link: Link, event: LinkEvent, now: u64)
    requires
        remembered(link),
    ensures
        remembered(on_event(link, event, now).0),
{
    let after = on_event(link, event, now).0;
    assert forall|id: Seq<char>| #[trigger] after.terminals.contains(id) implies after.synced.contains(
        id,
    ) by {
        assert(link.terminals.contains(id));
    }
}

/// A command that begins leaves every shared terminal remembered.
pub proof fn commands_keep_terminals_remembered(
    link: Link,
    cmd: CloudCommand,
    cred: Result<(), Seq<char>>,
    listed: Seq<Exposure>,
)
    requires
        remembered(link),
    ensures
        remembered(begun(link, cmd, cred, listed).0),
{
    let after = begun(link, cmd, cred, listed).0;
    assert forall|id: Seq<char>| #[trigger] after.terminals.contains(id) implies after.synced.contains(
        id,
    ) by {
        assert(link.terminals.contains(id));
    }
}

/// A command that goes on leaves every shared terminal remembered. One case is
/// left out: a terminal that is shared already, is to be shared again and is
/// refused stays shared but is forgotten.
pub proof fn outcomes_keep_terminals_remembered(
    link: Link,
    due: Due,
    outcome: Result<(), Seq<char>>,
    now: u64,
)
    requires
        remembered(link),
        due matches Due::Sync { id, .. } ==> link.synced.contains(id) && (outcome is Ok
            || !link.terminals.contains(id)),
    ensures
        remembered(resumed(link, due, outcome, now).0),
{
    let after = resumed(link, due, outcome, now).0;
    assert forall|id: Seq<char>| #[trigger] after.terminals.contains(id) implies after.synced.contains(
        id,
    ) by {
        let was_shared = link.terminals.contains(id);
        match due {
            Due::Sync { id: other, .. } => {
                if id != other {
                    assert(was_shared);
                }
            },
            _ => {
                assert(was_shared);
            },
        }
    }
}

/// The message that tells the cloud all that is shared names every shared
/// terminal, and none twice.
pub proof fn status_names_every_terminal(link: Link, id: Seq<char>)
    requires
        link.terminals.wf(),
        link.terminals.contains(id),
    ensures
        ({
            let listed = terminals_json(link.terminals)->List_0;
            &&& listed.contains(named_terminal("id"@, id, link.terminals.at(id).name))
            &&& forall|i: int, k: int|
                0 <= i < k < listed.len() ==> member(#[trigger] listed[i], "id"@) != member(
                    #[trigger] listed[k],
                    "id"@,
                )
        }),
{
    let keys = link.terminals.keys;
    assert(keys.contains(id));
    let at = keys.index_of(id);
    let listed = terminals_json(link.terminals)->List_0;
    assert(listed[at] == named_terminal("id"@, id, link.terminals.at(id).name));
    assert("id"@ != "name"@) by {
        reveal_strlit("id");
        reveal_strlit("name");
        assert("id"@.len() != "name"@.len());
    }
    assert forall|i: int, k: int| 0 <= i < k < listed.len() implies member(
        #[trigger] listed[i],
        "id"@,
    ) != member(#[trigger] listed[k], "id"@) by {
        assert(member(listed[i], "id"@) == Json::Text(keys[i]));
        assert(member(listed[k], "id"@) == Json::Text(keys[k]));
        assert(keys[i] != keys[k]);
    }
}

} // verus!
