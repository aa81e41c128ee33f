//! The link to the cloud as a state machine.
//!
//! A [`CloudManager`] knows which terminals are shared, which local ports are
//! exposed and whether there is a connection. It is told what happens and
//! answers with what is to be done.
use vstd::prelude::*;
use std::collections::HashSet;

use super::action::{all_well_made, deeds, in_turn, just, nothing, stop_all, CloudAction, Deed};
use super::answer::{check_consent, outcome_text, read_admission, websocket_url, ws_recv_text};
use super::frame::{
    decode_binary_frame, encode_binary_frame, encode_ws_binary_frame, FRAME_DATA, FRAME_RESIZE,
};
use super::link::{
    answer, as_port, asked, asks_readably, begun, binary_ok, bumped, clock_fits, comes_next,
    confirmed, disconnected, dropped, event_ok, exposure_list, followable, head_json, header_json,
    headers_json, idle, lemma_head_is_plain, lemma_status_is_plain, lists_ports, on_attach,
    on_binary, on_connect, on_created, on_event, on_exit, on_exposed, on_happening, on_killed,
    on_not_exposed, on_output, on_request, on_socket_end, on_terminal, on_text, on_upgrade,
    output_ok, port_infos, ports_json, resizes_away, resumed, send, send_bytes, status_json,
    status_text, stop_request, stop_socket, terminal_ok, terminals_json, unshared, without_request,
    without_socket, Asked, CloudCommand, CloudStep, ConfirmEvent, ConnectEvent, ConnectStep,
    Course, CreateOutcome, Handshake, Link, LinkEvent, Pending, Shared, TerminalEvent,
    DISCONNECT_DELAY, MAX_BACKOFF,
};
use super::local::{HeaderValues, ProxyEvent};
use super::message::{
    envelope, expose_message, is_message, lemma_flat_is_plain, named_terminal, request_failure,
    request_message, says, snapshot_message, socket_close_message, terminal_message,
    terminal_payload, unexpose_message,
};
use super::proxy::{
    exposures, ExposedPort, Exposure, PendingProxyRequest, PendingWsProxy, ProxyState, WsWriteMsg,
    FRAME_PROXY_RESPONSE_BODY, FRAME_PROXY_WS_DATA, WS_SUBTYPE_BINARY, WS_SUBTYPE_TEXT,
};
use crate::credential::Credential;
use crate::emulator::Display;
use crate::ipc::message::ProxyPortInfo;
use crate::json::{
    at, json_of, list, no_members, number, obj1, obj2, object1, object2, object3, parse_text, put,
    str_members, str_option, str_or, text, u64_or, Json,
};
use crate::table::Table;
use crate::text::{concat2, concat3, decimal, same_text, text_option, texts};
use crate::wire::{bytes_between, read_be16};

verus! {

broadcast use vstd::std_specs::hash::group_hash_axioms;

/// How often a sign of life is sent, in seconds.
pub const HEARTBEAT_SECS: u64 = 30;

/// How long an answer may take, in seconds.
pub const RESP_TIMEOUT: u64 = 10;

/// A terminal that is shared.
struct SyncedTerminal {
    name: Option<String>,
    display: Display,
}

impl View for SyncedTerminal {
    type V = Shared;

    closed spec fn view(&self) -> Shared {
        Shared { name: text_option(self.name), given: self.display@ }
    }
}

spec fn display_wf() -> spec_fn(SyncedTerminal) -> bool {
    |terminal: SyncedTerminal| terminal.display.wf()
}

/// The state of the link to the cloud.
pub struct CloudManager {
    terminals: Table<SyncedTerminal>,
    synced: Table<()>,
    connected: bool,
    handshake: Handshake,
    backoff: u64,
    disconnect_at: Option<u64>,
    proxy: ProxyState,
    pending_expose: HashSet<u16>,
}

impl View for CloudManager {
    type V = Link;

    closed spec fn view(&self) -> Link {
        Link {
            terminals: self.terminals@,
            synced: self.synced@,
            connected: self.connected,
            handshake: self.handshake,
            backoff: self.backoff,
            disconnect_at: self.disconnect_at,
            proxy: self.proxy@,
            waiting: self.pending_expose@,
        }
    }
}

fn header_value(values: &HeaderValues) -> (v: serde_json::Value)
    ensures
        json_of(v) == header_json(values@),
{
    if values.values.len() == 1 {
        return text(values.values[0].as_str());
    }
    let mut items: Vec<serde_json::Value> = Vec::new();
    let mut i: usize = 0;
    while i < values.values.len()
        invariant
            i <= values.values.len(),
            items@.len() == i,
            forall|k: int|
                0 <= k < i ==> json_of(#[trigger] items@[k]) == Json::Text(values.values@[k]@),
        decreases values.values.len() - i,
    {
        items.push(text(values.values[i].as_str()));
        i = i + 1;
    }
    assert(crate::json::jsons(items@) =~= Seq::new(values@.len(), |k: int| Json::Text(values@[k])));
    list(items)
}

fn headers_value(headers: &Table<HeaderValues>) -> (v: serde_json::Value)
    requires
        headers.wf(),
    ensures
        json_of(v) == headers_json(headers@),
{
    let ghost want = headers_json(headers@)->Object_0;
    let ghost all = headers@.keys;
    proof {
        headers.lemma_wf();
    }
    let mut v = no_members();
    let mut i: usize = 0;
    assert(Map::<Seq<char>, Json>::empty() =~= want.restrict(all.take(0).to_set()));
    while i < headers.len()
        invariant
            i <= all.len(),
            all == headers@.keys,
            headers.wf(),
            headers@.wf(),
            want == headers_json(headers@)->Object_0,
            json_of(v) == Json::Object(want.restrict(all.take(i as int).to_set())),
        decreases all.len() - i,
    {
        let ghost before = json_of(v)->Object_0;
        let (name, values) = headers.entry_at(i);
        put(&mut v, name.as_str(), header_value(values));
        proof {
            let key = all[i as int];
            assert(all.take(i + 1) =~= all.take(i as int).push(key));
            assert forall|other: Seq<char>| #[trigger]
                all.take(i + 1).contains(other) <==> all.take(i as int).contains(other) || other
                == key by {
                if all.take(i as int).contains(other) {
                    let k = all.take(i as int).index_of(other);
                    assert(all.take(i + 1)[k] == other);
                }
                if other == key {
                    assert(all.take(i + 1)[i as int] == other);
                }
                if all.take(i + 1).contains(other) && other != key {
                    let k = all.take(i + 1).index_of(other);
                    assert(all.take(i as int)[k] == other);
                }
            }
            assert(before.insert(key, want[key]) =~= want.restrict(all.take(i + 1).to_set()));
        }
        i = i + 1;
    }
    assert(all.take(i as int) =~= all);
    assert(want.restrict(all.to_set()) =~= want);
    v
}

/// Whether a binary message gives a terminal a size without rows or columns.
pub fn gives_no_size(data: &[u8]) -> (yes: bool)
    ensures
        yes == resizes_away(data@),
{
    match decode_binary_frame(data) {
        Some(frame) => {
            let payload = frame.payload;
            if frame.kind == FRAME_RESIZE && payload.len() == 4 {
                proof {
                    assert(payload@.subrange(0, 2) =~= seq![payload@[0], payload@[1]]);
                    assert(payload@.subrange(2, 4) =~= seq![payload@[2], payload@[3]]);
                }
                read_be16(payload[0], payload[1]) == 0 || read_be16(payload[2], payload[3]) == 0
            } else {
                false
            }
        },
        None => false,
    }
}

fn low_port(n: u64) -> (port: u16)
    ensures
        port == as_port(n),
{
    (n % 0x1_0000) as u16
}

struct Ask {
    id: String,
    method: String,
    path: String,
    port: u16,
    headers: Vec<(String, String)>,
}

fn read_ask(payload: &serde_json::Value) -> (ask: Ask)
    ensures
        asked(json_of(*payload)) == (Asked {
            id: ask.id@,
            method: ask.method@,
            path: ask.path@,
            port: ask.port,
            headers: crate::json::pair_map(ask.headers@),
        }),
        crate::json::pair_keys(ask.headers@).no_duplicates(),
{
    proof {
        reveal_strlit("");
        assert(""@ =~= Seq::empty());
    }
    Ask {
        id: str_or(at(payload, "requestId"), ""),
        method: str_or(at(payload, "method"), "GET"),
        path: str_or(at(payload, "path"), "/"),
        port: low_port(u64_or(at(payload, "port"), 0)),
        headers: str_members(at(payload, "headers")),
    }
}

impl Ask {
    fn servable(&self) -> (yes: bool)
        ensures
            yes == (self.port != 0 && self.id@.len() > 0),
    {
        self.port != 0 && crate::text::chars_of(self.id.as_str()).len() > 0
    }
}

impl CloudManager {
    /// The tables and what they hold are well-formed, and the wait between two
    /// attempts to connect is within its limits.
    pub closed spec fn wf(&self) -> bool {
        &&& self.terminals.wf()
        &&& self.terminals.all(display_wf())
        &&& self.synced.wf()
        &&& self.proxy.wf()
        &&& 1 <= self.backoff <= MAX_BACKOFF
    }

    /// The link before anything has happened.
    pub fn new() -> (manager: Self)
        ensures
            manager.wf(),
            manager@ == idle(),
    {
        let manager = CloudManager {
            terminals: Table::new(),
            synced: Table::new(),
            connected: false,
            handshake: Handshake::Idle,
            backoff: 1,
            disconnect_at: None,
            proxy: ProxyState::new(),
            pending_expose: HashSet::new(),
        };
        assert(manager@ =~= idle());
        manager
    }

    fn say(&self, text: String) -> (actions: Vec<CloudAction>)
        requires
            is_message(text@),
        ensures
            deeds(actions@) == send(self@, text@),
            all_well_made(actions@),
    {
        if self.connected {
            just(CloudAction::SendText(text))
        } else {
            nothing()
        }
    }

    fn say_bytes(&self, data: Vec<u8>) -> (actions: Vec<CloudAction>)
        ensures
            deeds(actions@) == send_bytes(self@, data@),
            all_well_made(actions@),
    {
        if self.connected {
            just(CloudAction::SendBinary(data))
        } else {
            nothing()
        }
    }

    /// Forgets the connection and all that went over it.
    pub fn drop_conn(&mut self) -> (actions: Vec<CloudAction>)
        requires
            old(self).wf(),
        ensures
            final(self).wf(),
            (final(self)@, deeds(actions@)) == dropped(old(self)@),
            all_well_made(actions@),
    {
        self.connected = false;
        let tasks = self.proxy.cancel_all_requests();
        assert(self@ =~= dropped(old(self)@).0);
        stop_all(tasks)
    }

    fn forget_request(&mut self, request_id: &str)
        requires
            old(self).wf(),
        ensures
            final(self).wf(),
            final(self)@ == without_request(old(self)@, request_id@),
    {
        let _ = self.proxy.pending_requests.remove(request_id);
        assert(self@ =~= without_request(old(self)@, request_id@));
    }

    fn cancel_request(&mut self, request_id: &str) -> (actions: Vec<CloudAction>)
        requires
            old(self).wf(),
        ensures
            final(self).wf(),
            final(self)@ == without_request(old(self)@, request_id@),
            deeds(actions@) == stop_request(old(self)@, request_id@),
            all_well_made(actions@),
    {
        let actions = stop_all(self.proxy.cancel_request(request_id));
        assert(self@ =~= without_request(old(self)@, request_id@));
        assert(deeds(actions@) =~= stop_request(old(self)@, request_id@));
        actions
    }

    fn cancel_ws(&mut self, request_id: &str) -> (actions: Vec<CloudAction>)
        requires
            old(self).wf(),
        ensures
            final(self).wf(),
            final(self)@ == without_socket(old(self)@, request_id@),
            deeds(actions@) == stop_socket(old(self)@, request_id@),
            all_well_made(actions@),
    {
        let actions = stop_all(self.proxy.cancel_ws(request_id));
        assert(self@ =~= without_socket(old(self)@, request_id@));
        assert(deeds(actions@) =~= stop_socket(old(self)@, request_id@));
        actions
    }

    /// Takes note of what has happened on a local port and tells the cloud.
    pub fn handle_proxy_event(&mut self, event: ProxyEvent) -> (actions: Vec<CloudAction>)
        requires
            old(self).wf(),
            event.wf(),
        ensures
            final(self).wf(),
            (final(self)@, deeds(actions@)) == on_happening(old(self)@, event@),
            all_well_made(actions@),
    {
        match event {
            ProxyEvent::Head { request_id, status, headers } => {
                let payload = object3(
                    "requestId",
                    text(request_id.as_str()),
                    "status",
                    crate::json::number(status as u64),
                    "headers",
                    headers_value(&headers),
                );
                proof {
                    lemma_head_is_plain(request_id@, status, headers@);
                }
                let head = envelope("proxy.response.head", payload);
                assert(says(
                    head@,
                    "proxy.response.head"@,
                    head_json(request_id@, status, headers@),
                ));
                self.say(head)
            },
            ProxyEvent::Body { request_id, data } => self.say_bytes(
                encode_binary_frame(
                    request_id.as_str(),
                    FRAME_PROXY_RESPONSE_BODY,
                    data.as_slice(),
                ),
            ),
            ProxyEvent::End { request_id } => {
                self.forget_request(request_id.as_str());
                self.say(request_message("proxy.response.end", request_id.as_str()))
            },
            ProxyEvent::Error { request_id, message } => {
                self.forget_request(request_id.as_str());
                self.say(
                    request_failure("proxy.response.error", request_id.as_str(), message.as_str()),
                )
            },
            ProxyEvent::WsOpen { request_id } => self.say(
                request_message("proxy.ws.open", request_id.as_str()),
            ),
            ProxyEvent::WsClose { request_id, code, reason } => {
                let stopped = self.cancel_ws(request_id.as_str());
                let told = self.say(
                    socket_close_message(request_id.as_str(), code, reason.as_str()),
                );
                in_turn(stopped, told)
            },
            ProxyEvent::WsError { request_id, message } => {
                let stopped = self.cancel_ws(request_id.as_str());
                let told = self.say(
                    request_failure("proxy.ws.error", request_id.as_str(), message.as_str()),
                );
                in_turn(stopped, told)
            },
            ProxyEvent::WsData { request_id, is_text, data } => {
                let subtype: u8 = if is_text {
                    WS_SUBTYPE_TEXT
                } else {
                    WS_SUBTYPE_BINARY
                };
                self.say_bytes(
                    encode_ws_binary_frame(request_id.as_str(), subtype, data.as_slice()),
                )
            },
        }
    }

    fn unshare(&mut self, id: &str, now: u64)
        requires
            old(self).wf(),
            clock_fits(now),
        ensures
            final(self).wf(),
            final(self)@ == unshared(old(self)@, id@, now),
    {
        let _ = self.terminals.remove(id);
        let _ = self.synced.remove(id);
        if self.terminals.is_empty() {
            self.disconnect_at = Some(now + DISCONNECT_DELAY);
        }
        assert(self@ =~= unshared(old(self)@, id@, now));
    }

    /// Takes note of what a terminal shows and tells the cloud.
    pub fn handle_terminal_output(&mut self, id: &str, data: Vec<u8>) -> (actions: Vec<
        CloudAction,
    >)
        requires
            old(self).wf(),
            output_ok(old(self)@, id@, data@),
        ensures
            final(self).wf(),
            (final(self)@, deeds(actions@)) == on_output(old(self)@, id@, data@),
            all_well_made(actions@),
    {
        match self.terminals.get_mut(id) {
            Some(terminal) => {
                assert(display_wf()(*terminal));
                terminal.display.process(data.as_slice());
                assert(display_wf()(*terminal));
            },
            None => return nothing(),
        }
        assert(self@ =~= on_output(old(self)@, id@, data@).0);
        if self.connected {
            self.say_bytes(encode_binary_frame(id, FRAME_DATA, data.as_slice()))
        } else {
            nothing()
        }
    }

    /// Takes note that the program in a terminal has ended and tells the cloud.
    pub fn handle_terminal_exited(&mut self, id: &str, now: u64) -> (actions: Vec<CloudAction>)
        requires
            old(self).wf(),
            clock_fits(now),
        ensures
            final(self).wf(),
            (final(self)@, deeds(actions@)) == on_exit(old(self)@, id@, now),
            all_well_made(actions@),
    {
        if !self.terminals.contains_key(id) {
            return nothing();
        }
        let actions = self.say(terminal_message("terminal.exited", id));
        self.unshare(id, now);
        actions
    }

    /// Takes note of what the program in a terminal does.
    pub fn handle_event(&mut self, event: TerminalEvent, now: u64) -> (actions: Vec<CloudAction>)
        requires
            old(self).wf(),
            clock_fits(now),
            terminal_ok(old(self)@, event),
        ensures
            final(self).wf(),
            (final(self)@, deeds(actions@)) == on_terminal(old(self)@, event, now),
            all_well_made(actions@),
    {
        match event {
            TerminalEvent::Output { id, data } => self.handle_terminal_output(id.as_str(), data),
            TerminalEvent::Exited { id } => self.handle_terminal_exited(id.as_str(), now),
        }
    }

    /// Follows a binary message from the cloud. A message that gives a shared
    /// terminal a size without rows or columns is left out.
    pub fn handle_ws_binary(&mut self, data: &[u8]) -> (actions: Vec<CloudAction>)
        requires
            old(self).wf(),
            binary_ok(old(self)@, data@),
        ensures
            final(self).wf(),
            (final(self)@, deeds(actions@)) == on_binary(old(self)@, data@),
            all_well_made(actions@),
    {
        let frame = match decode_binary_frame(data) {
            Some(frame) => frame,
            None => return nothing(),
        };
        let id = frame.id;
        let payload = frame.payload;
        if frame.kind == FRAME_DATA {
            if self.terminals.contains_key(id.as_str()) {
                return just(CloudAction::WritePty { id, data: payload });
            }
        } else if frame.kind == FRAME_RESIZE {
            if payload.len() == 4 {
                proof {
                    assert(payload@.subrange(0, 2) =~= seq![payload@[0], payload@[1]]);
                    assert(payload@.subrange(2, 4) =~= seq![payload@[2], payload@[3]]);
                }
                let cols: u16 = read_be16(payload[0], payload[1]);
                let rows: u16 = read_be16(payload[2], payload[3]);
                if let Some(terminal) = self.terminals.get_mut(id.as_str()) {
                    assert(display_wf()(*terminal));
                    terminal.display.set_size(rows, cols);
                    assert(display_wf()(*terminal));
                    assert(self@ =~= on_binary(old(self)@, data@).0);
                    return just(CloudAction::ResizePty { id, cols, rows });
                }
            }
        } else if frame.kind == FRAME_PROXY_WS_DATA {
            if payload.len() > 0 && self.proxy.pending_ws.contains_key(id.as_str()) {
                let is_text = payload[0] == WS_SUBTYPE_TEXT;
                let rest = bytes_between(payload.as_slice(), 1, payload.len());
                assert(rest@ =~= payload@.skip(1));
                return just(
                    CloudAction::ToSocket {
                        request_id: id,
                        message: WsWriteMsg::Data { is_text, payload: rest },
                        wait: false,
                    },
                );
            }
        }
        nothing()
    }

    /// Shows a terminal to somebody who starts watching it.
    pub fn handle_web_attach(&self, tid: &str) -> (actions: Vec<CloudAction>)
        requires
            self.wf(),
        ensures
            deeds(actions@) == on_attach(self@, tid@),
            all_well_made(actions@),
    {
        match self.terminals.get(tid) {
            Some(terminal) => {
                let (rows, cols) = terminal.display.size();
                let picture = terminal.display.contents_formatted();
                let first = self.say(snapshot_message(tid, rows, cols));
                let second = self.say_bytes(
                    encode_binary_frame(tid, FRAME_DATA, picture.as_slice()),
                );
                in_turn(first, second)
            },
            None => nothing(),
        }
    }

    /// Starts a request to a local port, or tells the cloud why not.
    pub fn handle_proxy_request_head(&mut self, payload: &serde_json::Value) -> (actions: Vec<
        CloudAction,
    >)
        requires
            old(self).wf(),
        ensures
            final(self).wf(),
            (final(self)@, deeds(actions@)) == on_request(old(self)@, json_of(*payload)),
            all_well_made(actions@),
    {
        let ask = read_ask(payload);
        if !ask.servable() {
            return self.say(
                request_failure(
                    "proxy.response.error",
                    ask.id.as_str(),
                    "invalid port or requestId",
                ),
            );
        }
        self.proxy.pending_requests.insert(ask.id.clone(), PendingProxyRequest { port: ask.port });
        assert(self@ =~= on_request(old(self)@, json_of(*payload)).0);
        just(
            CloudAction::StartRequest {
                request_id: ask.id,
                method: ask.method,
                port: ask.port,
                path: ask.path,
                headers: ask.headers,
            },
        )
    }

    /// Opens a WebSocket on a local port, or tells the cloud why not.
    pub fn handle_proxy_ws_upgrade(&mut self, payload: &serde_json::Value) -> (actions: Vec<
        CloudAction,
    >)
        requires
            old(self).wf(),
        ensures
            final(self).wf(),
            (final(self)@, deeds(actions@)) == on_upgrade(old(self)@, json_of(*payload)),
            all_well_made(actions@),
    {
        let ask = read_ask(payload);
        if !ask.servable() {
            return self.say(
                request_failure("proxy.ws.error", ask.id.as_str(), "invalid port or requestId"),
            );
        }
        self.proxy.pending_ws.insert(ask.id.clone(), PendingWsProxy { port: ask.port });
        assert(self@ =~= on_upgrade(old(self)@, json_of(*payload)).0);
        just(
            CloudAction::StartSocket {
                request_id: ask.id,
                port: ask.port,
                path: ask.path,
                headers: ask.headers,
            },
        )
    }

    fn answer_expose(&mut self, port: u16, result: Result<String, String>) -> (actions: Vec<
        CloudAction,
    >)
        requires
            old(self).wf(),
        ensures
            final(self).wf(),
            final(self)@ == (Link { waiting: old(self)@.waiting.remove(port), ..old(self)@ }),
            deeds(actions@) == answer(old(self)@, port, super::action::text_result(result)),
            all_well_made(actions@),
    {
        let waited = self.pending_expose.remove(&port);
        assert(self@ =~= (Link { waiting: old(self)@.waiting.remove(port), ..old(self)@ }));
        if waited {
            just(CloudAction::ReplyExpose { port, result })
        } else {
            nothing()
        }
    }

    fn handle_exposed(&mut self, payload: &serde_json::Value) -> (actions: Vec<CloudAction>)
        requires
            old(self).wf(),
        ensures
            final(self).wf(),
            (final(self)@, deeds(actions@)) == on_exposed(old(self)@, json_of(*payload)),
            all_well_made(actions@),
    {
        proof {
            reveal_strlit("");
            assert(""@ =~= Seq::empty());
        }
        let port: u16 = low_port(u64_or(at(payload, "port"), 0));
        let url = str_or(at(payload, "url"), "");
        self.proxy.set_url(port, url.clone());
        let actions = self.answer_expose(port, Ok(url));
        assert(self@ =~= on_exposed(old(self)@, json_of(*payload)).0);
        actions
    }

    fn handle_not_exposed(&mut self, payload: &serde_json::Value) -> (actions: Vec<CloudAction>)
        requires
            old(self).wf(),
        ensures
            final(self).wf(),
            (final(self)@, deeds(actions@)) == on_not_exposed(old(self)@, json_of(*payload)),
            all_well_made(actions@),
    {
        let port: u16 = low_port(u64_or(at(payload, "port"), 0));
        let reason = str_or(at(payload, "message"), "unknown error");
        let _ = self.proxy.unexpose(port);
        let actions = self.answer_expose(port, Err(reason));
        assert(self@ =~= on_not_exposed(old(self)@, json_of(*payload)).0);
        actions
    }

    fn handle_socket_end(&mut self, payload: &serde_json::Value) -> (actions: Vec<CloudAction>)
        requires
            old(self).wf(),
        ensures
            final(self).wf(),
            (final(self)@, deeds(actions@)) == on_socket_end(old(self)@, json_of(*payload)),
            all_well_made(actions@),
    {
        proof {
            reveal_strlit("");
            assert(""@ =~= Seq::empty());
        }
        let id = str_or(at(payload, "requestId"), "");
        let code: u16 = low_port(u64_or(at(payload, "code"), 1000));
        let reason = str_or(at(payload, "reason"), "");
        let goodbye = if self.proxy.pending_ws.contains_key(id.as_str()) {
            just(
                CloudAction::ToSocket {
                    request_id: id.clone(),
                    message: WsWriteMsg::Close { code, reason },
                    wait: true,
                },
            )
        } else {
            nothing()
        };
        let stopped = self.cancel_ws(id.as_str());
        in_turn(goodbye, stopped)
    }

    /// Follows a text message from the cloud.
    pub fn handle_ws_text(&mut self, msg: &serde_json::Value) -> (actions: Vec<CloudAction>)
        requires
            old(self).wf(),
        ensures
            final(self).wf(),
            (final(self)@, deeds(actions@)) == on_text(old(self)@, json_of(*msg)),
            all_well_made(actions@),
    {
        proof {
            reveal_strlit("");
            assert(""@ =~= Seq::empty());
        }
        let kind = str_or(at(msg, "type"), "");
        let payload = at(msg, "payload");
        if same_text(kind.as_str(), "terminal.web-attach") {
            match at(payload, "terminalId").as_str() {
                Some(tid) => self.handle_web_attach(tid),
                None => nothing(),
            }
        } else if same_text(kind.as_str(), "terminal.create") {
            just(CloudAction::CreateTerminal { name: str_option(at(payload, "name")) })
        } else if same_text(kind.as_str(), "terminal.kill") {
            match at(payload, "terminalId").as_str() {
                Some(tid) => just(
                    CloudAction::KillTerminal {
                        id: tid.to_owned(),
                        shared: self.terminals.contains_key(tid),
                    },
                ),
                None => nothing(),
            }
        } else if same_text(kind.as_str(), "proxy.expose.ok") {
            self.handle_exposed(payload)
        } else if same_text(kind.as_str(), "proxy.expose.error") {
            self.handle_not_exposed(payload)
        } else if same_text(kind.as_str(), "proxy.request.head") {
            self.handle_proxy_request_head(payload)
        } else if same_text(kind.as_str(), "proxy.request.cancel") {
            let id = str_or(at(payload, "requestId"), "");
            self.cancel_request(id.as_str())
        } else if same_text(kind.as_str(), "proxy.ws.upgrade") {
            self.handle_proxy_ws_upgrade(payload)
        } else if same_text(kind.as_str(), "proxy.ws.close") {
            self.handle_socket_end(payload)
        } else {
            nothing()
        }
    }

    /// The exposed ports, each once, in no stated order.
    pub fn exposed(&self) -> (listed: Vec<ExposedPort>)
        requires
            self.wf(),
        ensures
            lists_ports(self@.proxy.ports, exposure_list(listed@)),
    {
        let ghost ports = self.proxy.exposed_ports@;
        let mut numbers: Vec<u16> = Vec::new();
        for port in it: self.proxy.exposed_ports.keys()
            invariant
                it.seq().unref().to_set() == ports.dom(),
                it.seq().no_duplicates(),
                numbers@ == it.seq().unref().take(it.index()),
                it.index() == it.seq().len() ==> numbers@ == it.seq().unref(),
        {
            numbers.push(*port);
        }
        assert(numbers@.to_set() == ports.dom());
        assert(numbers@.no_duplicates());
        let mut listed: Vec<ExposedPort> = Vec::new();
        let mut i: usize = 0;
        while i < numbers.len()
            invariant
                i <= numbers.len(),
                ports == self.proxy.exposed_ports@,
                self.proxy.wf(),
                numbers@.to_set() == ports.dom(),
                listed@.len() == i,
                forall|k: int|
                    0 <= k < i ==> (#[trigger] listed@[k])@ == ports[numbers@[k]]@
                        && listed@[k].port == numbers@[k],
            decreases numbers.len() - i,
        {
            assert(numbers@.to_set().contains(numbers@[i as int]));
            let port: u16 = numbers[i];
            if let Some(found) = self.proxy.exposed_ports.get(&port) {
                listed.push(
                    ExposedPort {
                        port: found.port,
                        public: found.public,
                        url: crate::text::copy_option(&found.url),
                    },
                );
            }
            i = i + 1;
        }
        proof {
            let all = exposure_list(listed@);
            assert forall|k: int| 0 <= k < all.len() implies exposures(ports).contains_key(
                (#[trigger] all[k]).port,
            ) && exposures(ports)[all[k].port] == all[k] by {
                assert(all[k] == listed@[k]@);
                assert(numbers@.to_set().contains(numbers@[k]));
            }
            assert forall|k: int, m: int| 0 <= k < m < all.len() implies (#[trigger] all[k]).port
                != (#[trigger] all[m]).port by {
                assert(all[k] == listed@[k]@ && all[m] == listed@[m]@);
            }
            assert forall|port: u16| #[trigger] exposures(ports).contains_key(port) implies exists|
                k: int,
            | 0 <= k < all.len() && (#[trigger] all[k]).port == port by {
                assert(numbers@.to_set().contains(port));
                let k = numbers@.index_of(port);
                assert(all[k] == listed@[k]@);
            }
        }
        listed
    }

    fn terminals_value(&self) -> (v: serde_json::Value)
        requires
            self.wf(),
        ensures
            json_of(v) == terminals_json(self@.terminals),
    {
        let ghost terminals = self@.terminals;
        let mut items: Vec<serde_json::Value> = Vec::new();
        let mut i: usize = 0;
        while i < self.terminals.len()
            invariant
                i <= terminals.keys.len(),
                terminals == self.terminals@,
                self.terminals.wf(),
                items@.len() == i,
                forall|k: int|
                    0 <= k < i ==> json_of(#[trigger] items@[k]) == named_terminal(
                        "id"@,
                        terminals.keys[k],
                        terminals.at(terminals.keys[k]).name,
                    ),
            decreases terminals.keys.len() - i,
        {
            let (id, terminal) = self.terminals.entry_at(i);
            items.push(terminal_payload("id", id.as_str(), &terminal.name));
            i = i + 1;
        }
        assert(Json::List(crate::json::jsons(items@)) == terminals_json(terminals)) by {
            assert(crate::json::jsons(items@) =~= terminals_json(terminals)->List_0);
        }
        list(items)
    }

    /// The message that tells the cloud all that is shared, with the exposed
    /// ports in the order of a list.
    pub fn device_status(&self, ports: &Vec<ExposedPort>) -> (out: String)
        requires
            self.wf(),
        ensures
            out@ == status_text(self@, exposure_list(ports@)),
            says(out@, "device.status"@, status_json(self@, exposure_list(ports@))),
    {
        let ghost listed = exposure_list(ports@);
        let mut items: Vec<serde_json::Value> = Vec::new();
        let mut i: usize = 0;
        while i < ports.len()
            invariant
                i <= ports.len(),
                items@.len() == i,
                forall|k: int|
                    0 <= k < i ==> json_of(#[trigger] items@[k]) == obj2(
                        "port"@,
                        Json::Unsigned(ports@[k].port as u64),
                        "public"@,
                        Json::Bool(ports@[k].public),
                    ),
            decreases ports.len() - i,
        {
            items.push(
                object2(
                    "port",
                    crate::json::number(ports[i].port as u64),
                    "public",
                    crate::json::truth(ports[i].public),
                ),
            );
            i = i + 1;
        }
        assert(Json::List(crate::json::jsons(items@)) == ports_json(listed)) by {
            assert(crate::json::jsons(items@) =~= ports_json(listed)->List_0);
        }
        let payload = object2(
            "syncedTerminals",
            self.terminals_value(),
            "exposedPorts",
            list(items),
        );
        proof {
            lemma_status_is_plain(self@, listed);
        }
        envelope("device.status", payload)
    }

    /// The message that tells the cloud all that is shared.
    pub fn build_device_status(&self) -> (out: String)
        requires
            self.wf(),
        ensures
            exists|listed: Seq<Exposure>|
                lists_ports(self@.proxy.ports, listed) && out@ == #[trigger] status_text(
                    self@,
                    listed,
                ) && says(out@, "device.status"@, status_json(self@, listed)),
    {
        let ports = self.exposed();
        self.device_status(&ports)
    }

    /// Doubles the wait between two attempts to connect, up to a limit.
    pub fn bump_backoff(&mut self)
        requires
            old(self).wf(),
        ensures
            final(self).wf(),
            final(self)@ == (Link { backoff: bumped(old(self)@.backoff), ..old(self)@ }),
    {
        let twice: u64 = self.backoff * 2;
        self.backoff = if twice <= MAX_BACKOFF {
            twice
        } else {
            MAX_BACKOFF
        };
    }

    /// Whether an event is what comes next in an attempt to connect.
    pub fn awaits(&self, event: &ConnectEvent) -> (yes: bool)
        ensures
            yes == comes_next(self@.handshake, *event),
    {
        match event {
            ConnectEvent::Begin => true,
            ConnectEvent::Dialed(_) => self.handshake == Handshake::Dialing,
            ConnectEvent::AuthSent(_) => self.handshake == Handshake::Authenticating,
            ConnectEvent::Answer(_) => self.handshake == Handshake::Awaiting,
            ConnectEvent::StatusSent(_) => self.handshake == Handshake::Reporting,
        }
    }

    /// Goes on with an attempt to connect.
    pub fn ensure_connected(&mut self, cred: &Credential, event: ConnectEvent) -> (r: (
        ConnectStep,
        Vec<CloudAction>,
    ))
        requires
            old(self).wf(),
            comes_next(old(self)@.handshake, event),
        ensures
            final(self).wf(),
            exists|listed: Seq<Exposure>|
                (r.0 matches ConnectStep::SendStatus { text } ==> lists_ports(
                    old(self)@.proxy.ports,
                    listed,
                ) && says(text@, "device.status"@, status_json(final(self)@, listed))) && (
                final(self)@,
                r.0@,
                deeds(r.1@),
                ) == #[trigger] on_connect(old(self)@, *cred, event, listed),
            r.0 matches ConnectStep::SendAuth { text } ==> says(
                text@,
                "auth"@,
                obj1("token"@, Json::Text(cred.token@)),
            ),
            all_well_made(r.1@),
    {
        let ghost none: Seq<Exposure> = Seq::empty();
        let ghost asked = on_connect(self@, *cred, event, none);
        match event {
            ConnectEvent::Begin => {
                if self.connected {
                    self.handshake = Handshake::Idle;
                    assert(self@ =~= asked.0);
                    (ConnectStep::Done(Ok(())), nothing())
                } else {
                    self.handshake = Handshake::Dialing;
                    assert(self@ =~= asked.0);
                    (
                        ConnectStep::Dial { url: websocket_url(cred.server_url.as_str()) },
                        nothing(),
                    )
                }
            },
            ConnectEvent::Dialed(outcome) => match outcome {
                Err(reason) => {
                    self.bump_backoff();
                    self.handshake = Handshake::Idle;
                    assert(self@ =~= asked.0);
                    (
                        ConnectStep::Done(
                            Err(concat2("WebSocket connect failed: ", reason.as_str())),
                        ),
                        nothing(),
                    )
                },
                Ok(_) => {
                    self.handshake = Handshake::Authenticating;
                    assert(self@ =~= asked.0);
                    let payload = object1("token", text(cred.token.as_str()));
                    proof {
                        lemma_flat_is_plain(json_of(payload)->Object_0);
                    }
                    (ConnectStep::SendAuth { text: envelope("auth", payload) }, nothing())
                },
            },
            ConnectEvent::AuthSent(outcome) => match outcome {
                Err(reason) => {
                    self.handshake = Handshake::Idle;
                    assert(self@ =~= asked.0);
                    (
                        ConnectStep::Done(Err(concat2("auth send failed: ", reason.as_str()))),
                        nothing(),
                    )
                },
                Ok(_) => {
                    self.handshake = Handshake::Awaiting;
                    assert(self@ =~= asked.0);
                    (ConnectStep::AwaitAnswer, nothing())
                },
            },
            ConnectEvent::Answer(incoming) => match read_admission(incoming) {
                Err(reason) => {
                    self.handshake = Handshake::Idle;
                    assert(self@ =~= asked.0);
                    (ConnectStep::Done(Err(reason)), nothing())
                },
                Ok(_) => {
                    self.connected = true;
                    self.handshake = Handshake::Reporting;
                    self.backoff = 1;
                    let ports = self.exposed();
                    let status = self.device_status(&ports);
                    proof {
                        let listed = exposure_list(ports@);
                        assert(lists_ports(old(self)@.proxy.ports, listed));
                        assert(self@ =~= on_connect(old(self)@, *cred, event, listed).0);
                    }
                    (ConnectStep::SendStatus { text: status }, nothing())
                },
            },
            ConnectEvent::StatusSent(outcome) => {
                self.handshake = Handshake::Idle;
                match outcome {
                    Err(reason) => {
                        assert(self@ =~= (Link { handshake: Handshake::Idle, ..old(self)@ }));
                        let actions = self.drop_conn();
                        (ConnectStep::Done(Err(reason)), actions)
                    },
                    Ok(_) => {
                        assert(self@ =~= asked.0);
                        (ConnectStep::Done(Ok(())), nothing())
                    },
                }
            },
        }
    }

    fn port_list(&self) -> (listed: Vec<ProxyPortInfo>)
        requires
            self.wf(),
        ensures
            lists_ports(self@.proxy.ports, port_infos(listed@)),
    {
        let ports = self.exposed();
        let mut listed: Vec<ProxyPortInfo> = Vec::new();
        let mut i: usize = 0;
        while i < ports.len()
            invariant
                i <= ports.len(),
                listed@.len() == i,
                forall|k: int|
                    0 <= k < i ==> (#[trigger] port_infos(listed@)[k]) == ports@[k]@,
            decreases ports.len() - i,
        {
            let ghost before = listed@;
            listed.push(
                ProxyPortInfo {
                    port: ports[i].port,
                    public: ports[i].public,
                    url: crate::text::copy_option(&ports[i].url),
                },
            );
            proof {
                assert forall|k: int| 0 <= k < i + 1 implies (#[trigger] port_infos(listed@)[k])
                    == ports@[k]@ by {
                    if k < i {
                        assert(port_infos(before)[k] == ports@[k]@);
                    }
                }
            }
            i = i + 1;
        }
        assert(port_infos(listed@) =~= exposure_list(ports@));
        listed
    }

    /// Begins a command. `cred` says whether there is a credential, and if not,
    /// why.
    pub fn handle_cmd(&mut self, cmd: CloudCommand, cred: Result<(), String>) -> (step: CloudStep)
        requires
            old(self).wf(),
        ensures
            final(self).wf(),
            exists|listed: Seq<Exposure>|
                (step is ReplyPorts ==> lists_ports(old(self)@.proxy.ports, listed)) && (
                final(self)@,
                step@,
                ) == #[trigger] begun(old(self)@, cmd, outcome_text(cred), listed),
            asks_readably(step),
    {
        let ghost start = begun(self@, cmd, outcome_text(cred), Seq::empty());
        match cmd {
            CloudCommand::Sync { id, name } => match cred {
                Err(reason) => CloudStep::Reply(Err(reason)),
                Ok(_) => {
                    self.disconnect_at = None;
                    self.synced.insert(id.clone(), ());
                    let payload = terminal_payload("terminalId", id.as_str(), &name);
                    proof {
                        lemma_flat_is_plain(json_of(payload)->Object_0);
                    }
                    let question = envelope("terminal.sync", payload);
                    assert(self@ =~= start.0);
                    assert(says(question@, "terminal.sync"@, json_of(payload)));
                    CloudStep::Confirm { text: question, then_do: Pending::Sync { id, name } }
                },
            },
            CloudCommand::Unsync { id } => {
                if !self.terminals.contains_key(id.as_str()) {
                    return CloudStep::Reply(
                        Err(concat3("terminal ", id.as_str(), " is not synced")),
                    );
                }
                match cred {
                    Err(reason) => CloudStep::Reply(Err(reason)),
                    Ok(_) => CloudStep::Confirm {
                        text: terminal_message("terminal.unsync", id.as_str()),
                        then_do: Pending::Unsync { id },
                    },
                }
            },
            CloudCommand::ProxyExpose { port, public } => match cred {
                Err(reason) => CloudStep::ReplyUrl(Err(reason)),
                Ok(_) => CloudStep::Connect { then_do: Pending::Expose { port, public } },
            },
            CloudCommand::ProxyUnexpose { port } => {
                if !self.proxy.exposed_ports.contains_key(&port) {
                    let number = decimal(port as u64);
                    return CloudStep::Reply(
                        Err(concat3("port ", number.as_str(), " is not exposed")),
                    );
                }
                match cred {
                    Err(reason) => CloudStep::Reply(Err(reason)),
                    Ok(_) => CloudStep::Connect { then_do: Pending::Unexpose { port } },
                }
            },
            CloudCommand::ProxyList => {
                let listed = self.port_list();
                proof {
                    let order = port_infos(listed@);
                    assert(begun(old(self)@, cmd, outcome_text(cred), order).1
                        == Course::ReplyPorts(order));
                }
                CloudStep::ReplyPorts(listed)
            },
        }
    }

    /// Goes on with a command after what it tried has come out.
    pub fn resume(&mut self, then_do: Pending, outcome: Result<(), String>, now: u64) -> (r: (
        CloudStep,
        Vec<CloudAction>,
    ))
        requires
            old(self).wf(),
            clock_fits(now),
        ensures
            final(self).wf(),
            (final(self)@, r.0@, deeds(r.1@)) == resumed(
                old(self)@,
                then_do@,
                outcome_text(outcome),
                now,
            ),
            asks_readably(r.0),
            all_well_made(r.1@),
    {
        let ghost want = resumed(self@, then_do@, outcome_text(outcome), now);
        match then_do {
            Pending::Sync { id, name } => match outcome {
                Err(reason) => {
                    let _ = self.synced.remove(id.as_str());
                    assert(self@ =~= want.0);
                    (CloudStep::Reply(Err(reason)), nothing())
                },
                Ok(_) => {
                    let terminal = SyncedTerminal { name, display: Display::new(24, 80) };
                    assert(display_wf()(terminal));
                    self.terminals.insert(id, terminal);
                    assert(self@ =~= want.0);
                    (CloudStep::Reply(Ok(())), nothing())
                },
            },
            Pending::Unsync { id } => match outcome {
                Err(reason) => (CloudStep::Reply(Err(reason)), nothing()),
                Ok(_) => {
                    let shared = self.terminals.contains_key(id.as_str());
                    self.unshare(id.as_str(), now);
                    let actions = if shared {
                        just(CloudAction::StopReader(id))
                    } else {
                        nothing()
                    };
                    (CloudStep::Reply(Ok(())), actions)
                },
            },
            Pending::Expose { port, public } => match outcome {
                Err(reason) => (CloudStep::ReplyUrl(Err(reason)), nothing()),
                Ok(_) => {
                    self.proxy.expose(port, public);
                    let _ = self.pending_expose.insert(port);
                    assert(self@ =~= want.0);
                    (
                        CloudStep::Send {
                            text: expose_message(port, public),
                            then_do: Pending::ExposeSent { port },
                        },
                        nothing(),
                    )
                },
            },
            Pending::ExposeSent { port } => match outcome {
                Err(_) => {
                    let told = self.answer_expose(port, Err("connection lost".to_string()));
                    let _ = self.proxy.unexpose(port);
                    let stopped = self.drop_conn();
                    assert(self@ =~= want.0);
                    (CloudStep::Wait, in_turn(told, stopped))
                },
                Ok(_) => (CloudStep::Wait, nothing()),
            },
            Pending::Unexpose { port } => match outcome {
                Err(reason) => (CloudStep::Reply(Err(reason)), nothing()),
                Ok(_) => (
                    CloudStep::Send {
                        text: unexpose_message(port),
                        then_do: Pending::UnexposeSent { port },
                    },
                    nothing(),
                ),
            },
            Pending::UnexposeSent { port } => match outcome {
                Err(reason) => (CloudStep::Reply(Err(reason)), nothing()),
                Ok(_) => {
                    let _ = self.proxy.unexpose(port);
                    assert(self@ =~= want.0);
                    (CloudStep::Reply(Ok(())), nothing())
                },
            },
        }
    }

    /// Finds out whether the cloud gave its consent. Where that cannot be found
    /// out, the connection is given up.
    pub fn send_and_confirm(&mut self, event: ConfirmEvent) -> (r: (
        Result<(), String>,
        Vec<CloudAction>,
    ))
        requires
            old(self).wf(),
        ensures
            final(self).wf(),
            (final(self)@, outcome_text(r.0), deeds(r.1@)) == confirmed(old(self)@, event),
            all_well_made(r.1@),
    {
        match event {
            ConfirmEvent::NotConnected(reason) => (Err(reason), nothing()),
            ConfirmEvent::NotSent(reason) => {
                let actions = self.drop_conn();
                (Err(reason), actions)
            },
            ConfirmEvent::Answer(incoming) => match ws_recv_text(incoming) {
                Ok(reply) => (check_consent(&reply), nothing()),
                Err(reason) => {
                    let actions = self.drop_conn();
                    (Err(reason), actions)
                },
            },
        }
    }

    /// Tells the cloud how creating a terminal has come out.
    pub fn handle_web_create(&self, outcome: CreateOutcome) -> (actions: Vec<CloudAction>)
        ensures
            deeds(actions@) == on_created(self@, outcome),
            all_well_made(actions@),
    {
        match outcome {
            CreateOutcome::Refused(reason) => {
                let payload = object1("message", text(reason.as_str()));
                proof {
                    lemma_flat_is_plain(json_of(payload)->Object_0);
                }
                let told = envelope("error", payload);
                assert(says(told@, "error"@, json_of(payload)));
                self.say(told)
            },
            CreateOutcome::Shared { id, name } => {
                let name = match name {
                    Some(n) => text(n.as_str()),
                    None => crate::json::null(),
                };
                let payload = object2("terminalId", text(id.as_str()), "name", name);
                proof {
                    lemma_flat_is_plain(json_of(payload)->Object_0);
                }
                let told = envelope("terminal.created", payload);
                assert(says(told@, "terminal.created"@, json_of(payload)));
                self.say(told)
            },
            CreateOutcome::NotShared => nothing(),
        }
    }

    /// Tells the cloud that a terminal has been killed.
    pub fn handle_web_kill(&self, id: &str, killed: bool) -> (actions: Vec<CloudAction>)
        ensures
            deeds(actions@) == on_killed(self@, id@, killed),
            all_well_made(actions@),
    {
        if killed {
            self.say(terminal_message("terminal.killed", id))
        } else {
            nothing()
        }
    }

    /// Gives the connection up in good order.
    pub fn disconnect(&mut self) -> (actions: Vec<CloudAction>)
        requires
            old(self).wf(),
        ensures
            final(self).wf(),
            (final(self)@, deeds(actions@)) == disconnected(old(self)@),
            all_well_made(actions@),
    {
        let was_connected = self.connected;
        self.connected = false;
        self.disconnect_at = None;
        if was_connected {
            just(CloudAction::Close)
        } else {
            nothing()
        }
    }

    /// Follows a message from the cloud. A text that is no JSON changes nothing.
    pub fn handle_ws_message(&mut self, message: &str) -> (actions: Vec<CloudAction>)
        requires
            old(self).wf(),
        ensures
            final(self).wf(),
            match crate::json::parsed(message@) {
                Ok(json) => (final(self)@, deeds(actions@)) == on_text(old(self)@, json),
                Err(_) => final(self)@ == old(self)@ && deeds(actions@) == Seq::<Deed>::empty(),
            },
            all_well_made(actions@),
    {
        match parse_text(message) {
            Ok(v) => self.handle_ws_text(&v),
            Err(_) => nothing(),
        }
    }

    /// Whether an event can be followed, as far as the terminals go.
    pub fn can_follow(&self, event: &LinkEvent) -> (yes: bool)
        requires
            self.wf(),
        ensures
            yes == followable(self@, *event),
    {
        match event {
            LinkEvent::Terminal(TerminalEvent::Output { id, data }) => match self.terminals.get(
                id.as_str(),
            ) {
                Some(terminal) => {
                    assert(display_wf()(*terminal));
                    terminal.display.takes(data.as_slice())
                },
                None => true,
            },
            LinkEvent::Binary(data) => {
                if gives_no_size(data.as_slice()) {
                    match decode_binary_frame(data.as_slice()) {
                        Some(frame) => !self.terminals.contains_key(frame.id.as_str()),
                        None => true,
                    }
                } else {
                    true
                }
            },
            _ => true,
        }
    }

    /// Follows whatever happens to the link.
    pub fn handle(&mut self, event: LinkEvent, now: u64) -> (actions: Vec<CloudAction>)
        requires
            old(self).wf(),
            clock_fits(now),
            event_ok(old(self)@, event),
        ensures
            final(self).wf(),
            (final(self)@, deeds(actions@)) == on_event(old(self)@, event, now),
            all_well_made(actions@),
    {
        match event {
            LinkEvent::Terminal(e) => self.handle_event(e, now),
            LinkEvent::Proxy(e) => self.handle_proxy_event(e),
            LinkEvent::Text(text) => self.handle_ws_message(text.as_str()),
            LinkEvent::Binary(data) => self.handle_ws_binary(data.as_slice()),
            LinkEvent::OtherMessage => nothing(),
            LinkEvent::Ended => self.drop_conn(),
            LinkEvent::DisconnectDue => self.disconnect(),
            LinkEvent::HeartbeatFailed => self.drop_conn(),
        }
    }

    /// Follows whatever happens to the link where the terminals can follow it, and
    /// leaves everything as it is where they cannot.
    pub fn try_handle(&mut self, event: LinkEvent, now: u64) -> (actions: Option<Vec<CloudAction>>)
        requires
            old(self).wf(),
            clock_fits(now),
            event matches LinkEvent::Proxy(e) ==> e.wf(),
        ensures
            final(self).wf(),
            actions is Some == followable(old(self)@, event),
            match actions {
                Some(list) => (final(self)@, deeds(list@)) == on_event(old(self)@, event, now)
                    && all_well_made(list@),
                None => final(self)@ == old(self)@,
            },
    {
        if self.can_follow(&event) {
            Some(self.handle(event, now))
        } else {
            None
        }
    }

    /// Whether there is a connection to listen to and to keep alive.
    pub fn is_connected(&self) -> (yes: bool)
        ensures
            yes == self@.connected,
    {
        self.connected
    }

    /// When the connection is to be given up: only where there is one, and
    /// nothing needs it.
    pub fn disconnect_due(&self) -> (at: Option<u64>)
        ensures
            at == if self@.connected {
                self@.disconnect_at
            } else {
                None
            },
    {
        if self.connected {
            self.disconnect_at
        } else {
            None
        }
    }

    /// How long to wait before the next attempt to connect, in seconds.
    pub fn backoff(&self) -> (secs: u64)
        requires
            self.wf(),
        ensures
            secs == self@.backoff,
            1 <= secs <= MAX_BACKOFF,
    {
        self.backoff
    }

    /// The terminals that are to be shared again after a restart.
    pub fn synced_ids(&self) -> (ids: Vec<String>)
        requires
            self.wf(),
        ensures
            texts(ids@) == self@.synced.keys,
    {
        let mut ids: Vec<String> = Vec::new();
        let mut i: usize = 0;
        while i < self.synced.len()
            invariant
                i <= self@.synced.keys.len(),
                self.synced.wf(),
                texts(ids@) == self@.synced.keys.take(i as int),
            decreases self@.synced.keys.len() - i,
        {
            let ghost before = texts(ids@);
            let (id, _) = self.synced.entry_at(i);
            ids.push(id.clone());
            i = i + 1;
            assert(texts(ids@) =~= before.push(self@.synced.keys[i - 1]));
            assert(self@.synced.keys.take(i as int) =~= self@.synced.keys.take(i - 1).push(
                self@.synced.keys[i - 1],
            ));
        }
        assert(self@.synced.keys.take(i as int) =~= self@.synced.keys);
        ids
    }
}

} // verus!
