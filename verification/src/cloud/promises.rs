//! What holds of the link to the cloud, told from the outside: what goes over
//! the wire and what comes of it.
use vstd::prelude::*;
use vstd::utf8::encode_utf8;

use super::action::Deed;
use super::answer::{admission, consent, device_url, reply_in, Incoming};
use super::frame::{
    link_frame, link_frame_in, link_frame_reads_back, socket_frame, socket_frame_reads_back,
    LinkFrame,
};
use super::link::{
    begun, bumped, comes_next, confirmed, dropped, feed, headers_json, idle, lists_ports, on_attach,
    on_binary, on_connect, on_created, on_event, on_exit, on_happening, on_killed, on_output,
    on_text, ports_json, resumed, terminals_json, unshared, CloudCommand, CloudStep, ConfirmEvent,
    ConnectEvent, ConnectStep, Connecting, Course, CreateOutcome, Due, Handshake, Link, LinkEvent,
    Pending, TerminalEvent,
};
use super::local::{Happening, ProxyEvent};
use super::message::{is_message, says};
use super::proxy::{ExposedPort, Exposure, Work, WsWrite};
use crate::credential::Credential;
use crate::emulator::{redraw_of, size_of, EmulatorInput};
use crate::json::{parsed, text_members, written, Json};
use crate::table::Entries;
use crate::text::{decimal_digits, text_option};
use crate::wire::{be16, id_field, id_in, plain_id_needs_no_trimming};

verus! {

/// Whether an identifier fits into a frame and is found there again.
pub open spec fn fits_a_frame(id: Seq<char>) -> bool {
    encode_utf8(id).len() <= 8 && (id.len() == 0 || id.last() != '\0')
}

/// The bytes of a frame: its type, the identifier in eight bytes, and whatever
/// follows.
pub proof fn frame_is_type_identifier_and_payload(id: Seq<char>, kind: u8, payload: Seq<u8>)
    requires
        fits_a_frame(id),
    ensures
        ({
            let bytes = link_frame(id, kind, payload);
            let field = bytes.subrange(1, 9);
            &&& bytes.len() == 9 + payload.len()
            &&& bytes[0] == kind
            &&& field.take(encode_utf8(id).len() as int) == encode_utf8(id)
            &&& forall|i: int| encode_utf8(id).len() <= i < 8 ==> #[trigger] field[i] == 0
            &&& bytes.skip(9) == payload
            &&& link_frame_in(bytes) == Some(LinkFrame { kind, id, payload })
        }),
{
    let bytes = link_frame(id, kind, payload);
    assert(bytes.subrange(1, 9) =~= id_field(encode_utf8(id)));
    assert(bytes.subrange(1, 9).take(encode_utf8(id).len() as int) =~= encode_utf8(id));
    assert(bytes.skip(9) =~= payload);
    link_frame_reads_back(id, kind, payload);
    plain_id_needs_no_trimming(id);
}

/// Bytes that are too short for a frame are none.
pub proof fn short_bytes_are_no_frame(bytes: Seq<u8>)
    ensures
        link_frame_in(bytes) is None <==> bytes.len() < 9,
        link_frame_in(bytes) matches Some(read) ==> {
            &&& read.kind == bytes[0]
            &&& read.id == id_in(bytes.subrange(1, 9))
            &&& read.payload == bytes.subrange(9, bytes.len() as int)
        },
{
}

/// What the cloud sends to an open WebSocket reaches it as it was sent: the mark
/// in front of the data says whether it is text, the mark of text is one, and the
/// data is what stands behind the mark.
pub proof fn socket_data_arrives_as_it_was_sent(
    link: Link,
    id: Seq<char>,
    mark: u8,
    data: Seq<u8>,
)
    requires
        fits_a_frame(id),
        link.proxy.sockets.contains(id),
    ensures
        on_binary(link, socket_frame(id, mark, data)) == (
            link,
            seq![
                Deed::ToSocket {
                    id,
                    message: WsWrite::Data { is_text: mark == 0x01, payload: data },
                    wait: false,
                },
            ],
        ),
        socket_frame(id, mark, data) == seq![0x22u8] + id_field(encode_utf8(id)) + seq![mark]
            + data,
{
    socket_frame_reads_back(id, mark, data);
    plain_id_needs_no_trimming(id);
    assert(socket_frame(id, mark, data) =~= seq![0x22u8] + id_field(encode_utf8(id)) + seq![mark]
        + data);
}

/// A text message arrives as text and a binary message as bytes, each with all
/// of its data.
pub proof fn text_arrives_as_text_and_bytes_as_bytes(link: Link, id: Seq<char>, data: Seq<u8>)
    requires
        fits_a_frame(id),
        link.proxy.sockets.contains(id),
    ensures
        on_binary(link, socket_frame(id, 0x01, data)).1 == seq![
            Deed::ToSocket {
                id,
                message: WsWrite::Data { is_text: true, payload: data },
                wait: false,
            },
        ],
        on_binary(link, socket_frame(id, 0x02, data)).1 == seq![
            Deed::ToSocket {
                id,
                message: WsWrite::Data { is_text: false, payload: data },
                wait: false,
            },
        ],
{
    socket_data_arrives_as_it_was_sent(link, id, 0x01, data);
    socket_data_arrives_as_it_was_sent(link, id, 0x02, data);
}

/// What one link sends of a WebSocket another one hands to its WebSocket of the
/// same name, as it was: both ends agree on what is text and where the data
/// begins.
pub proof fn socket_data_goes_from_end_to_end(
    link: Link,
    other: Link,
    id: Seq<char>,
    is_text: bool,
    data: Seq<u8>,
)
    requires
        fits_a_frame(id),
        link.connected,
        other.proxy.sockets.contains(id),
    ensures
        ({
            let (now, list) = on_happening(link, Happening::WsData { id, is_text, data });
            &&& now == link
            &&& list.len() == 1
            &&& list[0] matches Deed::SendBinary(bytes)
            &&& bytes[9] == (if is_text {
                0x01u8
            } else {
                0x02u8
            })
            &&& on_binary(other, bytes) == (
                other,
                seq![
                    Deed::ToSocket {
                        id,
                        message: WsWrite::Data { is_text, payload: data },
                        wait: false,
                    },
                ],
            )
        }),
{
    let mark = if is_text {
        0x01u8
    } else {
        0x02u8
    };
    socket_data_arrives_as_it_was_sent(other, id, mark, data);
    assert((seq![0x22u8] + id_field(encode_utf8(id)) + seq![mark] + data)[9] == mark);
}

/// What one link sends of a terminal another one hands to the program in its
/// terminal of the same name, as it was.
pub proof fn terminal_data_goes_from_end_to_end(
    link: Link,
    other: Link,
    id: Seq<char>,
    data: Seq<u8>,
)
    requires
        fits_a_frame(id),
        link.connected,
        link.terminals.contains(id),
        other.terminals.contains(id),
    ensures
        ({
            let (now, list) = on_output(link, id, data);
            &&& now == feed(link, id, EmulatorInput::Bytes(data))
            &&& list == seq![Deed::SendBinary(seq![0x01u8] + id_field(encode_utf8(id)) + data)]
            &&& on_binary(other, seq![0x01u8] + id_field(encode_utf8(id)) + data) == (
                other,
                seq![Deed::WritePty { id, data }],
            )
        }),
{
    link_frame_reads_back(id, 0x01, data);
    plain_id_needs_no_trimming(id);
}

/// A size from the cloud, columns first and then rows, two bytes each with the
/// high one first, is given to the shared terminal's screen and to its program.
pub proof fn size_reaches_screen_and_program(
    link: Link,
    id: Seq<char>,
    cols: u16,
    rows: u16,
    rest: Seq<u8>,
)
    requires
        fits_a_frame(id),
        link.terminals.contains(id),
    ensures
        ({
            let sized = seq![0x02u8] + id_field(encode_utf8(id)) + seq![
                (cols / 256) as u8,
                (cols % 256) as u8,
                (rows / 256) as u8,
                (rows % 256) as u8,
            ];
            let (now, list) = on_binary(link, sized);
            &&& list == seq![Deed::ResizePty { id, cols, rows }]
            &&& now.terminals.at(id).name == link.terminals.at(id).name
            &&& now.terminals.at(id).given == link.terminals.at(id).given.push(
                EmulatorInput::Resize { rows, cols },
            )
            &&& rest.len() > 0 ==> on_binary(link, sized + rest) == (link, Seq::<Deed>::empty())
        }),
{
    let size = be16(cols) + be16(rows);
    let plain = seq![
        (cols / 256) as u8,
        (cols % 256) as u8,
        (rows / 256) as u8,
        (rows % 256) as u8,
    ];
    assert(size =~= plain);
    link_frame_reads_back(id, 0x02, size);
    link_frame_reads_back(id, 0x02, size + rest);
    plain_id_needs_no_trimming(id);
    assert(size.subrange(0, 2) =~= be16(cols));
    assert(size.subrange(2, 4) =~= be16(rows));
    let head = seq![0x02u8] + id_field(encode_utf8(id));
    assert(link_frame(id, 0x02, size) =~= head + plain);
    assert(link_frame(id, 0x02, size + rest) =~= head + plain + rest);
}

/// A binary message has a result only where it is known here: data and sizes for
/// a shared terminal, and marked data for a WebSocket. It has at most one, sends
/// nothing, and changes nothing but the size of a screen.
pub proof fn unknown_frames_change_nothing(link: Link, bytes: Seq<u8>)
    ensures
        ({
            let (now, list) = on_binary(link, bytes);
            let id = id_in(bytes.subrange(1, 9));
            let to_terminal = bytes.len() >= 9 && link.terminals.contains(id);
            let to_socket = bytes.len() >= 10 && link.proxy.sockets.contains(id);
            &&& list.len() <= 1
            &&& list.len() == 1 <==> {
                ||| bytes[0] == 0x01 && to_terminal
                ||| bytes[0] == 0x02 && bytes.len() == 13 && to_terminal
                ||| bytes[0] == 0x22 && to_socket
            }
            &&& list.len() == 0 ==> now == link
            &&& !(bytes.len() == 13 && bytes[0] == 0x02) ==> now == link
            &&& list.len() == 1 ==> (bytes[0] == 0x01 <==> list[0] is WritePty)
            &&& list.len() == 1 ==> (bytes[0] == 0x02 <==> list[0] is ResizePty)
            &&& list.len() == 1 ==> (bytes[0] == 0x22 <==> list[0] is ToSocket)
        }),
{
}

/// What is sent where there is a connection: one message of the protocol's first
/// version, with a type and the members of its payload.
pub open spec fn told(link: Link, kind: Seq<char>, members: Map<Seq<char>, Json>) -> Seq<Deed> {
    if link.connected {
        seq![
            Deed::SendText(
                written(
                    Json::Object(
                        map![
                            "v"@ => Json::Unsigned(1),
                            "type"@ => Json::Text(kind),
                            "payload"@ => Json::Object(members),
                        ],
                    ),
                ),
            ),
        ]
    } else {
        Seq::empty()
    }
}

/// What the cloud is told of a request to a local port: the head with its status
/// and its headers, then the body as it comes, then the end or the failure, which
/// also end the request here.
pub proof fn request_is_told_step_by_step(
    link: Link,
    id: Seq<char>,
    status: u16,
    headers: Entries<Seq<Seq<char>>>,
    data: Seq<u8>,
    reason: Seq<char>,
) -> (lines: Map<Seq<char>, Json>)
    ensures
        on_happening(link, Happening::Head { id, status, headers }) == (
            link,
            told(
                link,
                "proxy.response.head"@,
                map![
                    "requestId"@ => Json::Text(id),
                    "status"@ => Json::Unsigned(status as u64),
                    "headers"@ => Json::Object(lines),
                ],
            ),
        ),
        forall|name: Seq<char>| #[trigger] lines.contains_key(name) <==> headers.contains(name),
        forall|name: Seq<char>|
            headers.contains(name) ==> match #[trigger] lines[name] {
                Json::Text(value) => headers.at(name) == seq![value],
                Json::List(values) => {
                    &&& values.len() != 1
                    &&& values.len() == headers.at(name).len()
                    &&& forall|i: int|
                        0 <= i < values.len() ==> #[trigger] values[i] == Json::Text(
                            headers.at(name)[i],
                        )
                },
                _ => false,
            },
        on_happening(link, Happening::Body { id, data }) == (
            link,
            if link.connected {
                seq![Deed::SendBinary(seq![0x21u8] + id_field(encode_utf8(id)) + data)]
            } else {
                Seq::empty()
            },
        ),
        ({
            let (now, list) = on_happening(link, Happening::End { id });
            &&& list == told(link, "proxy.response.end"@, map!["requestId"@ => Json::Text(id)])
            &&& now.proxy.requests == link.proxy.requests.remove(id)
        }),
        ({
            let (now, list) = on_happening(link, Happening::Error { id, message: reason });
            &&& list == told(
                link,
                "proxy.response.error"@,
                map!["requestId"@ => Json::Text(id), "message"@ => Json::Text(reason)],
            )
            &&& now.proxy.requests == link.proxy.requests.remove(id)
        }),
{
    let lines = headers_json(headers)->Object_0;
    assert forall|name: Seq<char>| headers.contains(name) implies match #[trigger] lines[name] {
        Json::Text(value) => headers.at(name) == seq![value],
        Json::List(values) => {
            &&& values.len() != 1
            &&& values.len() == headers.at(name).len()
            &&& forall|i: int|
                0 <= i < values.len() ==> #[trigger] values[i] == Json::Text(headers.at(name)[i])
        },
        _ => false,
    } by {
        let values = headers.at(name);
        if values.len() == 1 {
            assert(values =~= seq![values[0]]);
        }
    }
    lines
}

/// What the cloud is told of a WebSocket on a local port: that it is open, and
/// how it ended. The end stops it here.
pub proof fn socket_is_told_from_open_to_end(
    link: Link,
    id: Seq<char>,
    code: u16,
    reason: Seq<char>,
)
    ensures
        ({
            let stop = if link.proxy.sockets.contains(id) {
                seq![Deed::Stop(Work::Socket(id))]
            } else {
                Seq::empty()
            };
            let (opened, first) = on_happening(link, Happening::WsOpen { id });
            let (closed, last) = on_happening(link, Happening::WsClose { id, code, reason });
            let (failed, worst) = on_happening(link, Happening::WsError { id, message: reason });
            &&& opened == link
            &&& first == told(link, "proxy.ws.open"@, map!["requestId"@ => Json::Text(id)])
            &&& closed.proxy.sockets == link.proxy.sockets.remove(id)
            &&& last == stop + told(
                link,
                "proxy.ws.close"@,
                map![
                    "requestId"@ => Json::Text(id),
                    "code"@ => Json::Unsigned(code as u64),
                    "reason"@ => Json::Text(reason),
                ],
            )
            &&& failed.proxy.sockets == link.proxy.sockets.remove(id)
            &&& worst == stop + told(
                link,
                "proxy.ws.error"@,
                map!["requestId"@ => Json::Text(id), "message"@ => Json::Text(reason)],
            )
        }),
{
}

/// A message from the cloud with a type and a payload.
pub open spec fn letter(kind: Seq<char>, payload: Map<Seq<char>, Json>) -> Json {
    Json::Object(map!["type"@ => Json::Text(kind), "payload"@ => Json::Object(payload)])
}

/// Somebody who starts watching a shared terminal is told its size and then gets
/// the bytes that draw it. A terminal that is not shared is not shown.
pub proof fn watcher_sees_size_and_screen(link: Link, id: Seq<char>)
    ensures
        on_text(link, letter("terminal.web-attach"@, map!["terminalId"@ => Json::Text(id)])) == (
            link,
            on_attach(link, id),
        ),
        !link.terminals.contains(id) || !link.connected ==> on_attach(link, id).len() == 0,
        link.terminals.contains(id) ==> {
            let given = link.terminals.at(id).given;
            let (rows, cols) = size_of(given);
            on_attach(link, id) == told(
                link,
                "terminal.snapshot"@,
                map![
                    "terminalId"@ => Json::Text(id),
                    "rows"@ => Json::Unsigned(rows as u64),
                    "cols"@ => Json::Unsigned(cols as u64),
                ],
            ) + if link.connected {
                seq![
                    Deed::SendBinary(
                        seq![0x01u8] + id_field(encode_utf8(id)) + redraw_of(given),
                    ),
                ]
            } else {
                Seq::empty()
            }
        },
{
    lemma_words_differ();
}

/// The cloud can have a terminal made, with a name or without one, and can have a
/// terminal killed, which is taken back first where it is shared. A message that
/// does not name the terminal does nothing.
pub proof fn cloud_makes_and_kills_terminals(link: Link, id: Seq<char>, name: Seq<char>)
    ensures
        on_text(link, letter("terminal.create"@, map!["name"@ => Json::Text(name)])) == (
            link,
            seq![Deed::CreateTerminal { name: Some(name) }],
        ),
        on_text(link, letter("terminal.create"@, Map::empty())) == (
            link,
            seq![Deed::CreateTerminal { name: None }],
        ),
        on_text(link, letter("terminal.kill"@, map!["terminalId"@ => Json::Text(id)])) == (
            link,
            seq![Deed::KillTerminal { id, shared: link.terminals.contains(id) }],
        ),
        on_text(link, letter("terminal.kill"@, Map::empty())) == (link, Seq::<Deed>::empty()),
        on_text(link, letter("terminal.web-attach"@, Map::empty())) == (
            link,
            Seq::<Deed>::empty(),
        ),
{
    lemma_words_differ();
}

/// A request of the cloud is started as it was asked for. A method that is
/// missing is GET, a path that is missing is the root, and headers that are no
/// text are left out. A port is a number modulo 65536.
pub proof fn request_is_started_as_asked(
    link: Link,
    id: Seq<char>,
    method: Seq<char>,
    path: Seq<char>,
    port: u64,
    lines: Map<Seq<char>, Json>,
) -> (headers: Map<Seq<char>, Seq<char>>)
    requires
        id.len() > 0,
        port % 65536 != 0,
    ensures
        forall|name: Seq<char>| #[trigger]
            headers.contains_key(name) <==> lines.contains_key(name) && lines[name] is Text,
        forall|name: Seq<char>| #[trigger]
            headers.contains_key(name) ==> lines[name] == Json::Text(headers[name]),
        ({
            let full = map![
                "requestId"@ => Json::Text(id),
                "method"@ => Json::Text(method),
                "path"@ => Json::Text(path),
                "port"@ => Json::Unsigned(port),
                "headers"@ => Json::Object(lines),
            ];
            let bare = map!["requestId"@ => Json::Text(id), "port"@ => Json::Unsigned(port)];
            let port = (port % 65536) as u16;
            let (now, list) = on_text(link, letter("proxy.request.head"@, full));
            let (bare_now, bare_list) = on_text(link, letter("proxy.request.head"@, bare));
            let (open_now, open_list) = on_text(link, letter("proxy.ws.upgrade"@, full));
            &&& list == seq![Deed::StartRequest { id, method, port, path, headers }]
            &&& now.proxy.requests == link.proxy.requests.insert(id, port)
            &&& now.proxy.sockets == link.proxy.sockets
            &&& bare_list == seq![
                Deed::StartRequest {
                    id,
                    method: "GET"@,
                    port,
                    path: "/"@,
                    headers: Map::empty(),
                },
            ]
            &&& bare_now == now
            &&& open_list == seq![Deed::StartSocket { id, port, path, headers }]
            &&& open_now.proxy.sockets == link.proxy.sockets.insert(id, port)
            &&& open_now.proxy.requests == link.proxy.requests
        }),
{
    lemma_words_differ();
    text_members(Json::Object(lines))
}

proof fn lemma_words_differ()
    ensures
        "type"@ != "payload"@,
        "terminal.create"@ != "terminal.web-attach"@,
        "terminal.kill"@ != "terminal.web-attach"@,
        "terminal.kill"@ != "terminal.create"@,
        "requestId"@ != "method"@,
        "requestId"@ != "path"@,
        "requestId"@ != "port"@,
        "requestId"@ != "headers"@,
        "requestId"@ != "message"@,
        "requestId"@ != "code"@,
        "requestId"@ != "reason"@,
        "code"@ != "reason"@,
        "method"@ != "path"@,
        "method"@ != "port"@,
        "method"@ != "headers"@,
        "path"@ != "port"@,
        "path"@ != "headers"@,
        "port"@ != "headers"@,
        "port"@ != "url"@,
        "port"@ != "message"@,
        "proxy.request.head"@ != "terminal.web-attach"@,
        "proxy.request.head"@ != "terminal.create"@,
        "proxy.request.head"@ != "terminal.kill"@,
        "proxy.request.head"@ != "proxy.expose.ok"@,
        "proxy.request.head"@ != "proxy.expose.error"@,
        "proxy.ws.upgrade"@ != "terminal.web-attach"@,
        "proxy.ws.upgrade"@ != "terminal.create"@,
        "proxy.ws.upgrade"@ != "terminal.kill"@,
        "proxy.ws.upgrade"@ != "proxy.expose.ok"@,
        "proxy.ws.upgrade"@ != "proxy.expose.error"@,
        "proxy.ws.upgrade"@ != "proxy.request.head"@,
        "proxy.ws.upgrade"@ != "proxy.request.cancel"@,
        "proxy.request.cancel"@ != "terminal.web-attach"@,
        "proxy.request.cancel"@ != "terminal.create"@,
        "proxy.request.cancel"@ != "terminal.kill"@,
        "proxy.request.cancel"@ != "proxy.expose.ok"@,
        "proxy.request.cancel"@ != "proxy.expose.error"@,
        "proxy.request.cancel"@ != "proxy.request.head"@,
        "proxy.ws.close"@ != "terminal.web-attach"@,
        "proxy.ws.close"@ != "terminal.create"@,
        "proxy.ws.close"@ != "terminal.kill"@,
        "proxy.ws.close"@ != "proxy.expose.ok"@,
        "proxy.ws.close"@ != "proxy.expose.error"@,
        "proxy.ws.close"@ != "proxy.request.head"@,
        "proxy.ws.close"@ != "proxy.request.cancel"@,
        "proxy.ws.close"@ != "proxy.ws.upgrade"@,
        "proxy.expose.ok"@ != "terminal.web-attach"@,
        "proxy.expose.ok"@ != "terminal.create"@,
        "proxy.expose.ok"@ != "terminal.kill"@,
        "proxy.expose.error"@ != "terminal.web-attach"@,
        "proxy.expose.error"@ != "terminal.create"@,
        "proxy.expose.error"@ != "terminal.kill"@,
        "proxy.expose.error"@ != "proxy.expose.ok"@,
{
    reveal_strlit("type");
    reveal_strlit("payload");
    reveal_strlit("requestId");
    reveal_strlit("method");
    reveal_strlit("path");
    reveal_strlit("port");
    reveal_strlit("headers");
    reveal_strlit("message");
    reveal_strlit("code");
    reveal_strlit("reason");
    reveal_strlit("url");
    reveal_strlit("terminal.web-attach");
    reveal_strlit("terminal.create");
    reveal_strlit("terminal.kill");
    reveal_strlit("proxy.expose.ok");
    reveal_strlit("proxy.expose.error");
    reveal_strlit("proxy.request.head");
    reveal_strlit("proxy.request.cancel");
    reveal_strlit("proxy.ws.upgrade");
    reveal_strlit("proxy.ws.close");
    assert("type"@.len() == 4);
    assert("payload"@.len() == 7);
    assert("requestId"@.len() == 9);
    assert("method"@.len() == 6);
    assert("path"@.len() == 4);
    assert("port"@.len() == 4);
    assert("headers"@.len() == 7);
    assert("message"@.len() == 7);
    assert("code"@.len() == 4);
    assert("reason"@.len() == 6);
    assert("url"@.len() == 3);
    assert("terminal.web-attach"@.len() == 19);
    assert("terminal.create"@.len() == 15);
    assert("terminal.kill"@.len() == 13);
    assert("proxy.expose.ok"@.len() == 15);
    assert("proxy.expose.error"@.len() == 18);
    assert("proxy.request.head"@.len() == 18);
    assert("proxy.request.cancel"@.len() == 20);
    assert("proxy.ws.upgrade"@.len() == 16);
    assert("proxy.ws.close"@.len() == 14);
    assert("path"@[1] != "port"@[1]);
    assert("proxy.request.head"@[6] != "proxy.expose.error"@[6]);
    assert("terminal.create"@[0] != "proxy.expose.ok"@[0]);
}

/// What cannot be served is refused: a request without a name of its own or
/// without a port. Nothing is started for it.
pub proof fn unservable_is_refused(link: Link, payload: Map<Seq<char>, Json>)
    requires
        ({
            let named = payload.contains_key("requestId"@) && (payload["requestId"@]
                matches Json::Text(id) && id.len() > 0);
            let ported = payload.contains_key("port"@) && (payload["port"@]
                matches Json::Unsigned(n) && n % 65536 != 0);
            !(named && ported)
        }),
    ensures
        ({
            let id = if payload.contains_key("requestId"@) && payload["requestId"@] is Text {
                payload["requestId"@]->Text_0
            } else {
                Seq::empty()
            };
            let members = map![
                "requestId"@ => Json::Text(id),
                "message"@ => Json::Text("invalid port or requestId"@),
            ];
            &&& on_text(link, letter("proxy.request.head"@, payload)) == (
                link,
                told(link, "proxy.response.error"@, members),
            )
            &&& on_text(link, letter("proxy.ws.upgrade"@, payload)) == (
                link,
                told(link, "proxy.ws.error"@, members),
            )
        }),
{
    lemma_words_differ();
}

/// The cloud can end what it has begun: a cancelled request is stopped and
/// forgotten, and a WebSocket gets a farewell, for which there is time, before it
/// is stopped and forgotten. A code that is missing is 1000 and a reason that is
/// missing is none. What is not under way is left alone.
pub proof fn cloud_ends_what_it_began(
    link: Link,
    id: Seq<char>,
    code: u64,
    reason: Seq<char>,
)
    ensures
        ({
            let name = map!["requestId"@ => Json::Text(id)];
            let full = map![
                "requestId"@ => Json::Text(id),
                "code"@ => Json::Unsigned(code),
                "reason"@ => Json::Text(reason),
            ];
            let farewell = |code: u16, reason: Seq<char>| seq![
                Deed::ToSocket { id, message: WsWrite::Close { code, reason }, wait: true },
                Deed::Stop(Work::Socket(id)),
            ];
            let (cancelled, stopped) = on_text(link, letter("proxy.request.cancel"@, name));
            let (closed, said) = on_text(link, letter("proxy.ws.close"@, full));
            let (bare_closed, bare_said) = on_text(link, letter("proxy.ws.close"@, name));
            &&& cancelled.proxy.requests == link.proxy.requests.remove(id)
            &&& cancelled.proxy.sockets == link.proxy.sockets
            &&& link.proxy.requests.contains(id) ==> stopped == seq![
                Deed::Stop(Work::Request(id)),
            ]
            &&& !link.proxy.requests.contains(id) ==> stopped.len() == 0
            &&& closed.proxy.sockets == link.proxy.sockets.remove(id)
            &&& closed.proxy.requests == link.proxy.requests
            &&& bare_closed == closed
            &&& link.proxy.sockets.contains(id) ==> {
                &&& said == farewell((code % 65536) as u16, reason)
                &&& bare_said == farewell(1000, Seq::empty())
            }
            &&& !link.proxy.sockets.contains(id) ==> said.len() == 0 && bare_said.len() == 0
        }),
{
    lemma_words_differ();
    let name = map!["requestId"@ => Json::Text(id)];
    let full = map![
        "requestId"@ => Json::Text(id),
        "code"@ => Json::Unsigned(code),
        "reason"@ => Json::Text(reason),
    ];
    if link.proxy.sockets.contains(id) {
        assert(on_text(link, letter("proxy.ws.close"@, full)).1 =~= seq![
            Deed::ToSocket {
                id,
                message: WsWrite::Close { code: (code % 65536) as u16, reason },
                wait: true,
            },
            Deed::Stop(Work::Socket(id)),
        ]);
        assert(on_text(link, letter("proxy.ws.close"@, name)).1 =~= seq![
            Deed::ToSocket {
                id,
                message: WsWrite::Close { code: 1000, reason: Seq::empty() },
                wait: true,
            },
            Deed::Stop(Work::Socket(id)),
        ]);
    }
}

/// Once a port is exposed its address is known, and the one who waits for it is
/// told. Where it could not be exposed it is forgotten, and the one who waits is
/// told why. No other port is touched.
pub proof fn exposure_comes_out_one_way_or_the_other(
    link: Link,
    port: u16,
    other: u16,
    text: Seq<char>,
)
    requires
        link.proxy.ports.contains_key(port),
        other != port,
    ensures
        ({
            let good = map!["port"@ => Json::Unsigned(port as u64), "url"@ => Json::Text(text)];
            let bad = map!["port"@ => Json::Unsigned(port as u64), "message"@ => Json::Text(text)];
            let (up, told_up) = on_text(link, letter("proxy.expose.ok"@, good));
            let (down, told_down) = on_text(link, letter("proxy.expose.error"@, bad));
            &&& up.proxy.ports.dom() == link.proxy.ports.dom()
            &&& up.proxy.ports[port] == (Exposure {
                port: link.proxy.ports[port].port,
                public: link.proxy.ports[port].public,
                url: Some(text),
            })
            &&& link.proxy.ports.contains_key(other) ==> up.proxy.ports[other]
                == link.proxy.ports[other]
            &&& down.proxy.ports == link.proxy.ports.remove(port)
            &&& !up.waiting.contains(port) && !down.waiting.contains(port)
            &&& up.waiting.contains(other) == link.waiting.contains(other)
            &&& down.waiting.contains(other) == link.waiting.contains(other)
            &&& link.waiting.contains(port) ==> {
                &&& told_up == seq![Deed::ReplyExpose { port, result: Ok(text) }]
                &&& told_down == seq![Deed::ReplyExpose { port, result: Err(text) }]
            }
            &&& !link.waiting.contains(port) ==> told_up.len() == 0 && told_down.len() == 0
        }),
{
    lemma_words_differ();
    let good = map!["port"@ => Json::Unsigned(port as u64), "url"@ => Json::Text(text)];
    let up = on_text(link, letter("proxy.expose.ok"@, good)).0;
    assert(up.proxy.ports.dom() =~= link.proxy.ports.dom());
}

/// Where the cloud gives no reason for a refused exposure, it is unknown.
pub proof fn refusal_without_a_reason_is_unknown(link: Link, port: u16)
    requires
        link.waiting.contains(port),
    ensures
        on_text(
            link,
            letter("proxy.expose.error"@, map!["port"@ => Json::Unsigned(port as u64)]),
        ).1 == seq![Deed::ReplyExpose { port, result: Err("unknown error"@) }],
{
    lemma_words_differ();
}

/// A text message that is no object, has no type, or has one that is not known
/// here changes nothing, and neither does text that is no JSON.
pub proof fn unknown_messages_change_nothing(link: Link, json: Json, text: String, now: u64)
    requires
        json matches Json::Object(members) ==> {
            let kind = members["type"@];
            members.contains_key("type"@) && kind is Text ==> {
                &&& kind != Json::Text("terminal.web-attach"@)
                &&& kind != Json::Text("terminal.create"@)
                &&& kind != Json::Text("terminal.kill"@)
                &&& kind != Json::Text("proxy.expose.ok"@)
                &&& kind != Json::Text("proxy.expose.error"@)
                &&& kind != Json::Text("proxy.request.head"@)
                &&& kind != Json::Text("proxy.request.cancel"@)
                &&& kind != Json::Text("proxy.ws.upgrade"@)
                &&& kind != Json::Text("proxy.ws.close"@)
            }
        },
    ensures
        on_text(link, json) == (link, Seq::<Deed>::empty()),
        parsed(text@) is Err ==> on_event(link, LinkEvent::Text(text), now) == (
            link,
            Seq::<Deed>::empty(),
        ),
        parsed(text@) matches Ok(read) ==> on_event(link, LinkEvent::Text(text), now) == on_text(
            link,
            read,
        ),
{
    reveal_strlit("terminal.web-attach");
    reveal_strlit("terminal.create");
    reveal_strlit("terminal.kill");
    reveal_strlit("proxy.expose.ok");
    reveal_strlit("proxy.expose.error");
    reveal_strlit("proxy.request.head");
    reveal_strlit("proxy.request.cancel");
    reveal_strlit("proxy.ws.upgrade");
    reveal_strlit("proxy.ws.close");
    assert("terminal.web-attach"@.len() == 19);
    assert("terminal.create"@.len() == 15);
    assert("terminal.kill"@.len() == 13);
    assert("proxy.expose.ok"@.len() == 15);
    assert("proxy.expose.error"@.len() == 18);
    assert("proxy.request.head"@.len() == 18);
    assert("proxy.request.cancel"@.len() == 20);
    assert("proxy.ws.upgrade"@.len() == 16);
    assert("proxy.ws.close"@.len() == 14);
}

/// The members that a list of ports is told with: the number of each and whether
/// it is public.
pub open spec fn told_port(port: Exposure) -> Json {
    Json::Object(
        map!["port"@ => Json::Unsigned(port.port as u64), "public"@ => Json::Bool(port.public)],
    )
}

/// The members that a shared terminal is told with: its identifier under a key
/// and its name, where it has one.
pub open spec fn told_terminal(key: Seq<char>, id: Seq<char>, name: Option<Seq<char>>) -> Map<
    Seq<char>,
    Json,
> {
    match name {
        Some(name) => map![key => Json::Text(id), "name"@ => Json::Text(name)],
        None => map![key => Json::Text(id)],
    }
}

/// The end of a shared terminal's program is told once, under the terminal's
/// identifier, and the terminal is no longer shared, now or after a restart. When
/// it was the last one, the connection is to be given up half a minute later. The
/// end of any other program changes nothing.
pub proof fn ended_terminal_is_no_longer_shared(
    link: Link,
    id: Seq<char>,
    other: Seq<char>,
    now: u64,
)
    requires
        now + 30 <= u64::MAX,
        link.terminals.wf(),
        other != id,
    ensures
        ({
            let (after, list) = on_exit(link, id, now);
            let alone = link.terminals.keys.len() == 1;
            &&& link.terminals.contains(id) ==> {
                &&& list == told(link, "terminal.exited"@, map!["terminalId"@ => Json::Text(id)])
                &&& !after.terminals.contains(id) && !after.synced.contains(id)
                &&& after.terminals.contains(other) == link.terminals.contains(other)
                &&& link.terminals.contains(other) ==> after.terminals.at(other)
                    == link.terminals.at(other)
                &&& after.synced.contains(other) == link.synced.contains(other)
                &&& alone ==> after.disconnect_at == Some((now + 30) as u64)
                &&& !alone ==> after.disconnect_at == link.disconnect_at
                &&& after.connected == link.connected && after.proxy == link.proxy
                    && after.waiting == link.waiting && after.backoff == link.backoff
            }
            &&& !link.terminals.contains(id) ==> after == link && list.len() == 0
        }),
{
    if link.terminals.contains(id) {
        assert(link.terminals.keys.contains(id));
        let i = link.terminals.keys.index_of(id);
        assert(link.terminals.keys.remove(i).len() == link.terminals.keys.len() - 1);
    }
}

/// The wait after a failed call doubles, up to half a minute.
pub proof fn wait_doubles_up_to_half_a_minute(backoff: u64)
    requires
        backoff <= 0x7fff_ffff_ffff_ffff,
    ensures
        backoff <= 15 ==> bumped(backoff) == backoff + backoff,
        backoff > 15 ==> bumped(backoff) == 30,
{
}

/// How a connection is made: the cloud is called, the token is sent, the answer
/// is awaited, and all that is shared is told. A failure ends the attempt with its
/// reason. Only a call that fails makes the next wait longer, only an admission
/// makes it short again, and where there is a connection already none is made.
pub proof fn connection_is_made_step_by_step(
    link: Link,
    cred: Credential,
    reason: String,
    listed: Seq<Exposure>,
)
    ensures
        ({
            let step = |event: ConnectEvent| on_connect(link, cred, event, listed);
            let begin = step(ConnectEvent::Begin);
            let no_call = step(ConnectEvent::Dialed(Err(reason)));
            let call = step(ConnectEvent::Dialed(Ok(())));
            let no_auth = step(ConnectEvent::AuthSent(Err(reason)));
            let auth = step(ConnectEvent::AuthSent(Ok(())));
            let no_status = step(ConnectEvent::StatusSent(Err(reason)));
            let status = step(ConnectEvent::StatusSent(Ok(())));
            let idle = Link { handshake: Handshake::Idle, ..link };
            &&& link.connected ==> begin == (
                idle,
                Connecting::Done(Ok(())),
                Seq::<Deed>::empty(),
            )
            &&& !link.connected ==> begin == (
                Link { handshake: Handshake::Dialing, ..link },
                Connecting::Dial(device_url(cred.server_url@)),
                Seq::<Deed>::empty(),
            )
            &&& no_call.0 == (Link { backoff: bumped(link.backoff), ..idle })
            &&& no_call.1 == Connecting::Done(Err("WebSocket connect failed: "@ + reason@))
            &&& call.0 == (Link { handshake: Handshake::Authenticating, ..link })
            &&& call.1 == Connecting::SendAuth(
                written(
                    Json::Object(
                        map![
                            "v"@ => Json::Unsigned(1),
                            "type"@ => Json::Text("auth"@),
                            "payload"@ => Json::Object(
                                map!["token"@ => Json::Text(cred.token@)],
                            ),
                        ],
                    ),
                ),
            )
            &&& no_auth == (
                idle,
                Connecting::Done(Err("auth send failed: "@ + reason@)),
                Seq::<Deed>::empty(),
            )
            &&& auth == (
                Link { handshake: Handshake::Awaiting, ..link },
                Connecting::AwaitAnswer,
                Seq::<Deed>::empty(),
            )
            &&& no_status == (
                dropped(idle).0,
                Connecting::Done(Err(reason@)),
                dropped(idle).1,
            )
            &&& status == (idle, Connecting::Done(Ok(())), Seq::<Deed>::empty())
            &&& no_call.2.len() == 0 && call.2.len() == 0
        }),
{
}

/// An answer either lets us in or ends the attempt with its reason. Once in, the
/// link is connected, the wait is one second again, and the cloud is told every
/// shared terminal and every exposed port in one message.
pub proof fn admission_is_followed_by_the_status(
    link: Link,
    cred: Credential,
    incoming: Incoming,
    listed: Seq<Exposure>,
) -> (shared: (Seq<Json>, Seq<Json>))
    ensures
        ({
            let (now, step, list) = on_connect(
                link,
                cred,
                ConnectEvent::Answer(incoming),
                listed,
            );
            match admission(incoming) {
                Err(reason) => now == (Link { handshake: Handshake::Idle, ..link }) && step
                    == Connecting::Done(Err(reason)),
                Ok(_) => now == (Link {
                    connected: true,
                    handshake: Handshake::Reporting,
                    backoff: 1,
                    ..link
                }) && step == Connecting::SendStatus(
                    written(
                        Json::Object(
                            map![
                                "v"@ => Json::Unsigned(1),
                                "type"@ => Json::Text("device.status"@),
                                "payload"@ => Json::Object(
                                    map![
                                        "syncedTerminals"@ => Json::List(shared.0),
                                        "exposedPorts"@ => Json::List(shared.1),
                                    ],
                                ),
                            ],
                        ),
                    ),
                ),
            }
        }),
        shared.0.len() == link.terminals.keys.len(),
        forall|i: int|
            0 <= i < shared.0.len() ==> #[trigger] shared.0[i] == Json::Object(
                told_terminal(
                    "id"@,
                    link.terminals.keys[i],
                    link.terminals.at(link.terminals.keys[i]).name,
                ),
            ),
        shared.1.len() == listed.len(),
        forall|i: int|
            0 <= i < shared.1.len() ==> #[trigger] shared.1[i] == told_port(listed[i]),
{
    (terminals_json(link.terminals)->List_0, ports_json(listed)->List_0)
}

/// Sharing a terminal: the cloud is asked for its consent under the terminal's
/// identifier and name, and the farewell is off. With the consent the terminal is
/// shared with an empty screen of 24 rows and 80 columns; without it the terminal
/// is not to be shared after a restart either.
pub proof fn terminal_is_shared_with_consent(
    link: Link,
    id: String,
    name: Option<String>,
    reason: Seq<char>,
    now: u64,
    listed: Seq<Exposure>,
)
    ensures
        ({
            let due = Due::Sync { id: id@, name: text_option(name) };
            let cmd = CloudCommand::Sync { id, name };
            let (asking, course) = begun(link, cmd, Ok(()), listed);
            let (shared, reply, list) = resumed(asking, due, Ok(()), now);
            let (refused, no, _none) = resumed(asking, due, Err(reason), now);
            &&& begun(link, cmd, Err(reason), listed) == (link, Course::Reply(Err(reason)))
            &&& asking == (Link {
                synced: link.synced.insert(id@, ()),
                disconnect_at: None,
                ..link
            })
            &&& course == (Course::Confirm {
                text: written(
                    Json::Object(
                        map![
                            "v"@ => Json::Unsigned(1),
                            "type"@ => Json::Text("terminal.sync"@),
                            "payload"@ => Json::Object(
                                told_terminal("terminalId"@, id@, text_option(name)),
                            ),
                        ],
                    ),
                ),
                due,
            })
            &&& reply == Course::Reply(Ok(())) && list.len() == 0
            &&& shared.synced.contains(id@) && shared.terminals.contains(id@)
            &&& shared.terminals.at(id@).name == text_option(name)
            &&& size_of(shared.terminals.at(id@).given) == (24u16, 80u16)
            &&& shared.terminals.at(id@).given.len() == 1
            &&& no == Course::Reply(Err(reason))
            &&& !refused.synced.contains(id@) && refused.terminals == link.terminals
        }),
{
}

/// Taking a terminal back: only a shared one can be, and only with the cloud's
/// consent. Then its program is no longer listened to; without the consent it
/// stays shared.
pub proof fn terminal_is_taken_back_with_consent(
    link: Link,
    id: String,
    reason: Seq<char>,
    now: u64,
    listed: Seq<Exposure>,
)
    ensures
        ({
            let due = Due::Unsync { id: id@ };
            let (asking, course) = begun(link, CloudCommand::Unsync { id }, Ok(()), listed);
            let (back, reply, list) = resumed(link, due, Ok(()), now);
            let (kept, no, none) = resumed(link, due, Err(reason), now);
            &&& asking == link
            &&& !link.terminals.contains(id@) ==> course == Course::Reply(
                Err("terminal "@ + id@ + " is not synced"@),
            )
            &&& link.terminals.contains(id@) ==> course == (Course::Confirm {
                text: written(
                    Json::Object(
                        map![
                            "v"@ => Json::Unsigned(1),
                            "type"@ => Json::Text("terminal.unsync"@),
                            "payload"@ => Json::Object(map!["terminalId"@ => Json::Text(id@)]),
                        ],
                    ),
                ),
                due,
            })
            &&& back == unshared(link, id@, now)
            &&& !back.terminals.contains(id@) && !back.synced.contains(id@)
            &&& reply == Course::Reply(Ok(()))
            &&& link.terminals.contains(id@) ==> list == seq![Deed::StopReader(id@)]
            &&& kept == link && no == Course::Reply(Err(reason)) && none.len() == 0
        }),
{
}

/// Exposing a port: over a connection the cloud is asked for it, with its number
/// and whether it is public, and somebody waits for its address. Where that cannot
/// be sent the connection is gone, the port is not exposed, and the one who waits
/// is told.
pub proof fn port_is_exposed_over_a_connection(
    link: Link,
    port: u16,
    public: bool,
    reason: Seq<char>,
    now: u64,
    listed: Seq<Exposure>,
)
    ensures
        ({
            let cmd = CloudCommand::ProxyExpose { port, public };
            let due = Due::Expose { port, public };
            let (asked, text, list) = resumed(link, due, Ok(()), now);
            let (lost, course, deeds) = resumed(
                asked,
                Due::ExposeSent { port },
                Err(reason),
                now,
            );
            &&& begun(link, cmd, Ok(()), listed) == (link, Course::Connect { due })
            &&& begun(link, cmd, Err(reason), listed) == (link, Course::ReplyUrl(Err(reason)))
            &&& resumed(link, due, Err(reason), now) == (
                link,
                Course::ReplyUrl(Err(reason)),
                Seq::<Deed>::empty(),
            )
            &&& asked.proxy.ports == link.proxy.ports.insert(
                port,
                Exposure { port, public, url: None },
            )
            &&& asked.waiting == link.waiting.insert(port) && list.len() == 0
            &&& text == (Course::Send {
                text: written(
                    Json::Object(
                        map![
                            "v"@ => Json::Unsigned(1),
                            "type"@ => Json::Text("proxy.expose"@),
                            "payload"@ => Json::Object(
                                map![
                                    "port"@ => Json::Unsigned(port as u64),
                                    "public"@ => Json::Bool(public),
                                ],
                            ),
                        ],
                    ),
                ),
                due: Due::ExposeSent { port },
            })
            &&& resumed(asked, Due::ExposeSent { port }, Ok(()), now) == (
                asked,
                Course::Wait,
                Seq::<Deed>::empty(),
            )
            &&& course == Course::Wait
            &&& !lost.connected && !lost.proxy.ports.contains_key(port)
                && !lost.waiting.contains(port)
            &&& deeds.len() > 0 && deeds[0] == (Deed::ReplyExpose {
                port,
                result: Err("connection lost"@),
            })
            &&& deeds.skip(1) == dropped(link).1
        }),
{
    let asked = resumed(link, Due::Expose { port, public }, Ok(()), now).0;
    let deeds = resumed(asked, Due::ExposeSent { port }, Err(reason), now).2;
    assert(deeds.skip(1) =~= dropped(link).1);
}

/// Taking a port back: only an exposed one can be, over a connection, and it is
/// exposed until the cloud has been told.
pub proof fn port_is_taken_back_over_a_connection(
    link: Link,
    port: u16,
    reason: Seq<char>,
    now: u64,
    listed: Seq<Exposure>,
)
    ensures
        ({
            let cmd = CloudCommand::ProxyUnexpose { port };
            let due = Due::Unexpose { port };
            let sent = Due::UnexposeSent { port };
            let (back, reply, list) = resumed(link, sent, Ok(()), now);
            &&& !link.proxy.ports.contains_key(port) ==> begun(link, cmd, Ok(()), listed) == (
                link,
                Course::Reply(
                    Err("port "@ + decimal_digits(port as nat) + " is not exposed"@),
                ),
            )
            &&& link.proxy.ports.contains_key(port) ==> {
                &&& begun(link, cmd, Ok(()), listed) == (link, Course::Connect { due })
                &&& begun(link, cmd, Err(reason), listed) == (link, Course::Reply(Err(reason)))
            }
            &&& resumed(link, due, Ok(()), now) == (
                link,
                Course::Send {
                    text: written(
                        Json::Object(
                            map![
                                "v"@ => Json::Unsigned(1),
                                "type"@ => Json::Text("proxy.unexpose"@),
                                "payload"@ => Json::Object(
                                    map!["port"@ => Json::Unsigned(port as u64)],
                                ),
                            ],
                        ),
                    ),
                    due: sent,
                },
                Seq::<Deed>::empty(),
            )
            &&& resumed(link, due, Err(reason), now) == (
                link,
                Course::Reply(Err(reason)),
                Seq::<Deed>::empty(),
            )
            &&& resumed(link, sent, Err(reason), now) == (
                link,
                Course::Reply(Err(reason)),
                Seq::<Deed>::empty(),
            )
            &&& back.proxy.ports == link.proxy.ports.remove(port)
            &&& reply == Course::Reply(Ok(())) && list.len() == 0
            &&& begun(link, CloudCommand::ProxyList, Err(reason), listed) == (
                link,
                Course::ReplyPorts(listed),
            )
        }),
{
}

/// How asking for a consent comes out. Without a connection and with an answer the
/// connection stays as it is; where the question could not be sent, or what came
/// back is no answer, it is gone.
pub proof fn unanswered_question_costs_the_connection(link: Link, reason: String, incoming: Incoming)
    ensures
        confirmed(link, ConfirmEvent::NotConnected(reason)) == (
            link,
            Err::<(), Seq<char>>(reason@),
            Seq::<Deed>::empty(),
        ),
        confirmed(link, ConfirmEvent::NotSent(reason)) == (
            dropped(link).0,
            Err::<(), Seq<char>>(reason@),
            dropped(link).1,
        ),
        match reply_in(incoming) {
            Ok(json) => confirmed(link, ConfirmEvent::Answer(incoming)) == (
                link,
                consent(json),
                Seq::<Deed>::empty(),
            ),
            Err(why) => confirmed(link, ConfirmEvent::Answer(incoming)) == (
                dropped(link).0,
                Err::<(), Seq<char>>(why),
                dropped(link).1,
            ),
        },
{
}

/// The cloud is told how making a terminal came out: with its identifier and its
/// name, which is null where it has none, or with the reason. A terminal that
/// could not be shared is not told. A kill is told where it was one.
pub proof fn made_and_killed_terminals_are_told(
    link: Link,
    id: String,
    name: Option<String>,
    reason: String,
)
    ensures
        on_created(link, CreateOutcome::Refused(reason)) == told(
            link,
            "error"@,
            map!["message"@ => Json::Text(reason@)],
        ),
        on_created(link, CreateOutcome::Shared { id, name }) == told(
            link,
            "terminal.created"@,
            map![
                "terminalId"@ => Json::Text(id@),
                "name"@ => match name {
                    Some(name) => Json::Text(name@),
                    None => Json::Null,
                },
            ],
        ),
        on_created(link, CreateOutcome::NotShared).len() == 0,
        on_killed(link, id@, true) == told(
            link,
            "terminal.killed"@,
            map!["terminalId"@ => Json::Text(id@)],
        ),
        on_killed(link, id@, false).len() == 0,
{
}

/// How a connection ends. One that has ended or failed, or on which no sign of
/// life can be sent, is gone with all that was under way over it. One that is not
/// needed any more is closed, and the farewell is off. Messages that are neither
/// text nor bytes change nothing.
pub proof fn connection_ends_in_one_of_two_ways(link: Link, now: u64)
    ensures
        on_event(link, LinkEvent::Ended, now) == dropped(link),
        on_event(link, LinkEvent::HeartbeatFailed, now) == dropped(link),
        on_event(link, LinkEvent::OtherMessage, now) == (link, Seq::<Deed>::empty()),
        ({
            let (after, list) = on_event(link, LinkEvent::DisconnectDue, now);
            &&& after == (Link { connected: false, disconnect_at: None, ..link })
            &&& link.connected ==> list == seq![Deed::Close]
            &&& !link.connected ==> list.len() == 0
        }),
        ({
            let (after, list) = dropped(link);
            let requests = link.proxy.requests.keys;
            let sockets = link.proxy.sockets.keys;
            &&& after.disconnect_at == link.disconnect_at && after.synced == link.synced
            &&& after.waiting == link.waiting && after.backoff == link.backoff
            &&& list.len() == requests.len() + sockets.len()
            &&& forall|i: int|
                0 <= i < requests.len() ==> #[trigger] list[i] == Deed::Stop(
                    Work::Request(requests[i]),
                )
            &&& forall|i: int|
                0 <= i < sockets.len() ==> #[trigger] list[requests.len() + i] == Deed::Stop(
                    Work::Socket(sockets[i]),
                )
        }),
{
}

/// How a connection and a command are to go on is told as it is.
pub proof fn steps_are_the_courses_they_name(
    id: String,
    text: String,
    name: Option<String>,
    port: u16,
    public: bool,
    then_do: Pending,
)
    ensures
        (ConnectStep::Dial { url: text })@ == Connecting::Dial(text@),
        (ConnectStep::SendAuth { text })@ == Connecting::SendAuth(text@),
        ConnectStep::AwaitAnswer@ == Connecting::AwaitAnswer,
        (ConnectStep::SendStatus { text })@ == Connecting::SendStatus(text@),
        ConnectStep::Done(Ok(()))@ == Connecting::Done(Ok(())),
        ConnectStep::Done(Err(text))@ == Connecting::Done(Err(text@)),
        CloudStep::Reply(Ok(()))@ == Course::Reply(Ok(())),
        CloudStep::Reply(Err(text))@ == Course::Reply(Err(text@)),
        CloudStep::ReplyUrl(Ok(text))@ == Course::ReplyUrl(Ok(text@)),
        CloudStep::ReplyUrl(Err(text))@ == Course::ReplyUrl(Err(text@)),
        (CloudStep::Confirm { text, then_do })@ == (Course::Confirm { text: text@, due: then_do@ }),
        (CloudStep::Connect { then_do })@ == (Course::Connect { due: then_do@ }),
        (CloudStep::Send { text, then_do })@ == (Course::Send { text: text@, due: then_do@ }),
        CloudStep::Wait@ == Course::Wait,
        (Pending::Sync { id, name })@ == (Due::Sync { id: id@, name: text_option(name) }),
        (Pending::Unsync { id })@ == (Due::Unsync { id: id@ }),
        (Pending::Expose { port, public })@ == (Due::Expose { port, public }),
        (Pending::ExposeSent { port })@ == (Due::ExposeSent { port }),
        (Pending::Unexpose { port })@ == (Due::Unexpose { port }),
        (Pending::UnexposeSent { port })@ == (Due::UnexposeSent { port }),
        text_option(Some(text)) == Some(text@),
        text_option(None) is None,
        (ExposedPort { port, public, url: Some(text) })@ == (Exposure {
            port,
            public,
            url: Some(text@),
        }),
        (ExposedPort { port, public, url: None })@ == (Exposure { port, public, url: None }),
{
}

/// A list of the exposed ports holds each of them once, with all that is known of
/// it, and nothing else.
pub proof fn listing_holds_every_port_once(ports: Map<u16, Exposure>, listed: Seq<Exposure>)
    requires
        lists_ports(ports, listed),
        forall|port: u16| #[trigger] ports.contains_key(port) ==> ports[port].port == port,
    ensures
        listed.no_duplicates(),
        listed.to_set() == ports.values(),
{
    assert forall|port: Exposure| #[trigger] listed.contains(port) <==> ports.values().contains(
        port,
    ) by {
        if listed.contains(port) {
            let i = listed.index_of(port);
            assert(ports.contains_key(listed[i].port) && ports[listed[i].port] == listed[i]);
        }
        if ports.values().contains(port) {
            let number = choose|number: u16| #[trigger]
                ports.dom().contains(number) && ports[number] == port;
            assert(ports.contains_key(number));
            let i = choose|i: int| 0 <= i < listed.len() && (#[trigger] listed[i]).port == number;
            assert(ports[listed[i].port] == listed[i]);
            assert(listed[i] == port);
        }
    }
    assert(listed.to_set() =~= ports.values());
}

/// A link to which nothing has happened shares nothing, is not connected, is not
/// about to be, waits one second before it tries, and has nothing under way.
pub proof fn new_link_has_nothing_to_do(id: Seq<char>, port: u16)
    ensures
        ({
            let link = idle();
            &&& !link.connected && link.handshake == Handshake::Idle && link.backoff == 1
            &&& link.disconnect_at is None
            &&& !link.terminals.contains(id) && !link.synced.contains(id)
            &&& !link.proxy.requests.contains(id) && !link.proxy.sockets.contains(id)
            &&& !link.proxy.ports.contains_key(port) && !link.waiting.contains(port)
        }),
{
}

/// Every event goes to what it is about: what a terminal writes and its end, what
/// happens on a local port, and binary messages.
pub proof fn events_go_where_they_belong(
    link: Link,
    id: String,
    data: Vec<u8>,
    event: ProxyEvent,
    now: u64,
)
    ensures
        on_event(link, LinkEvent::Terminal(TerminalEvent::Output { id, data }), now) == on_output(
            link,
            id@,
            data@,
        ),
        on_event(link, LinkEvent::Terminal(TerminalEvent::Exited { id }), now) == on_exit(
            link,
            id@,
            now,
        ),
        on_event(link, LinkEvent::Proxy(event), now) == on_happening(link, event@),
        on_event(link, LinkEvent::Binary(data), now) == on_binary(link, data@),
        !link.terminals.contains(id@) ==> on_output(link, id@, data@) == (
            link,
            Seq::<Deed>::empty(),
        ),
{
}

/// The steps of an attempt to connect come one after the other: each is awaited in
/// one state and in no other. A new attempt may begin in any.
pub proof fn steps_come_one_after_the_other(
    handshake: Handshake,
    outcome: Result<(), String>,
    incoming: Incoming,
)
    ensures
        comes_next(handshake, ConnectEvent::Begin),
        comes_next(handshake, ConnectEvent::Dialed(outcome)) <==> handshake == Handshake::Dialing,
        comes_next(handshake, ConnectEvent::AuthSent(outcome)) <==> handshake
            == Handshake::Authenticating,
        comes_next(handshake, ConnectEvent::Answer(incoming)) <==> handshake
            == Handshake::Awaiting,
        comes_next(handshake, ConnectEvent::StatusSent(outcome)) <==> handshake
            == Handshake::Reporting,
{
}

/// Who reads a message finds the version of the protocol, the type and the
/// payload, and nothing else.
pub proof fn message_is_found_again(text: Seq<char>) -> (content: (Seq<char>, Json))
    requires
        is_message(text),
    ensures
        parsed(text) == Ok::<Json, Seq<char>>(
            Json::Object(
                map![
                    "v"@ => Json::Unsigned(1),
                    "type"@ => Json::Text(content.0),
                    "payload"@ => content.1,
                ],
            ),
        ),
{
    let (kind, payload) = choose|kind: Seq<char>, payload: Json| says(text, kind, payload);
    (kind, payload)
}

} // verus!
