//! Local ports that can be reached through the cloud.
use vstd::prelude::*;
use std::collections::HashMap;

use crate::table::{Entries, Table};
use crate::text::{text_option, texts};

verus! {

broadcast use vstd::std_specs::hash::group_hash_axioms;

/// A port that has been exposed.
#[derive(Debug, Clone)]
pub struct ExposedPort {
    pub port: u16,
    pub public: bool,
    /// Where it can be reached, once the cloud has said so.
    pub url: Option<String>,
}

/// An exposed port as contracts speak of it.
pub struct Exposure {
    pub port: u16,
    pub public: bool,
    pub url: Option<Seq<char>>,
}

impl View for ExposedPort {
    type V = Exposure;

    open spec fn view(&self) -> Exposure {
        Exposure { port: self.port, public: self.public, url: text_option(self.url) }
    }
}

/// A request to a local port that is under way.
#[derive(Debug)]
pub struct PendingProxyRequest {
    pub port: u16,
}

impl View for PendingProxyRequest {
    type V = u16;

    open spec fn view(&self) -> u16 {
        self.port
    }
}

/// A message for a WebSocket on a local port.
#[derive(Debug)]
pub enum WsWriteMsg {
    Data { is_text: bool, payload: Vec<u8> },
    Close { code: u16, reason: String },
}

/// A message for a WebSocket as contracts speak of it.
pub enum WsWrite {
    Data { is_text: bool, payload: Seq<u8> },
    Close { code: u16, reason: Seq<char> },
}

impl View for WsWriteMsg {
    type V = WsWrite;

    open spec fn view(&self) -> WsWrite {
        match *self {
            WsWriteMsg::Data { is_text, payload } => WsWrite::Data { is_text, payload: payload@ },
            WsWriteMsg::Close { code, reason } => WsWrite::Close { code, reason: reason@ },
        }
    }
}

/// A WebSocket on a local port that is open or being opened.
#[derive(Debug)]
pub struct PendingWsProxy {
    pub port: u16,
}

impl View for PendingWsProxy {
    type V = u16;

    open spec fn view(&self) -> u16 {
        self.port
    }
}

/// Work in the background that can be stopped.
#[derive(Debug, PartialEq, Eq)]
pub enum Task {
    /// The request with this identifier.
    Request(String),
    /// The WebSocket with this identifier: its reader and its writer.
    Socket(String),
}

/// Work in the background as contracts speak of it.
pub enum Work {
    Request(Seq<char>),
    Socket(Seq<char>),
}

impl View for Task {
    type V = Work;

    open spec fn view(&self) -> Work {
        match *self {
            Task::Request(id) => Work::Request(id@),
            Task::Socket(id) => Work::Socket(id@),
        }
    }
}

/// The works that a list of tasks stands for.
pub open spec fn works(tasks: Seq<Task>) -> Seq<Work> {
    Seq::new(tasks.len(), |i: int| tasks[i]@)
}

/// The requests with these identifiers.
pub open spec fn request_works(ids: Seq<Seq<char>>) -> Seq<Work> {
    Seq::new(ids.len(), |i: int| Work::Request(ids[i]))
}

/// The WebSockets with these identifiers.
pub open spec fn socket_works(ids: Seq<Seq<char>>) -> Seq<Work> {
    Seq::new(ids.len(), |i: int| Work::Socket(ids[i]))
}

/// Which ports are exposed and what is under way to them.
pub struct ProxyState {
    pub exposed_ports: HashMap<u16, ExposedPort>,
    pub pending_requests: Table<PendingProxyRequest>,
    pub pending_ws: Table<PendingWsProxy>,
}

/// The state of the proxy as contracts speak of it.
#[verifier::ext_equal]
pub struct Proxy {
    pub ports: Map<u16, Exposure>,
    pub requests: Entries<u16>,
    pub sockets: Entries<u16>,
}

/// The exposures that a map of ports stands for.
pub open spec fn exposures(ports: Map<u16, ExposedPort>) -> Map<u16, Exposure> {
    Map::new(|port: u16| ports.contains_key(port), |port: u16| ports[port]@)
}

impl View for ProxyState {
    type V = Proxy;

    open spec fn view(&self) -> Proxy {
        Proxy {
            ports: exposures(self.exposed_ports@),
            requests: self.pending_requests@,
            sockets: self.pending_ws@,
        }
    }
}

/// A port that has been exposed and has no address yet.
pub open spec fn fresh(port: u16, public: bool) -> Exposure {
    Exposure { port, public, url: None }
}

/// The exposed ports after one of them got an address. A port that is not
/// exposed gets none.
pub open spec fn with_url(ports: Map<u16, Exposure>, port: u16, url: Seq<char>) -> Map<
    u16,
    Exposure,
> {
    if ports.contains_key(port) {
        ports.insert(port, Exposure { url: Some(url), ..ports[port] })
    } else {
        ports
    }
}

impl Default for ProxyState {
    /// Nothing exposed and nothing under way.
    fn default() -> (state: Self)
        ensures
            state.wf(),
            state@ == nothing_exposed(),
    {
        Self::new()
    }
}

/// Nothing exposed and nothing under way.
pub open spec fn nothing_exposed() -> Proxy {
    Proxy { ports: Map::empty(), requests: Entries::empty(), sockets: Entries::empty() }
}

impl ProxyState {
    /// Both tables list each identifier once, and each port is listed under its
    /// own number.
    pub open spec fn wf(&self) -> bool {
        &&& self.pending_requests.wf()
        &&& self.pending_ws.wf()
        &&& forall|port: u16| #[trigger]
            self.exposed_ports@.contains_key(port) ==> self.exposed_ports@[port].port == port
    }

    /// Nothing exposed and nothing under way.
    pub fn new() -> (state: Self)
        ensures
            state.wf(),
            state@ == nothing_exposed(),
    {
        let state = Self {
            exposed_ports: HashMap::new(),
            pending_requests: Table::new(),
            pending_ws: Table::new(),
        };
        assert(state@ =~= nothing_exposed());
        state
    }

    /// Exposes a port. If it was exposed already, its address is forgotten.
    pub fn expose(&mut self, port: u16, public: bool)
        requires
            old(self).wf(),
        ensures
            final(self).wf(),
            final(self)@ == (Proxy {
                ports: old(self)@.ports.insert(port, fresh(port, public)),
                ..old(self)@
            }),
    {
        self.exposed_ports.insert(port, ExposedPort { port, public, url: None });
        assert(self@.ports =~= old(self)@.ports.insert(port, fresh(port, public)));
    }

    /// Takes a port back. Says whether it was exposed.
    pub fn unexpose(&mut self, port: u16) -> (was_exposed: bool)
        requires
            old(self).wf(),
        ensures
            final(self).wf(),
            final(self)@ == (Proxy { ports: old(self)@.ports.remove(port), ..old(self)@ }),
            was_exposed == old(self)@.ports.contains_key(port),
    {
        let removed = self.exposed_ports.remove(&port);
        assert(self@.ports =~= old(self)@.ports.remove(port));
        removed.is_some()
    }

    /// Takes over the address of an exposed port.
    pub fn set_url(&mut self, port: u16, url: String)
        requires
            old(self).wf(),
        ensures
            final(self).wf(),
            final(self)@ == (Proxy {
                ports: with_url(old(self)@.ports, port, url@),
                ..old(self)@
            }),
    {
        if let Some(exposed) = self.exposed_ports.remove(&port) {
            self.exposed_ports.insert(
                port,
                ExposedPort { port: exposed.port, public: exposed.public, url: Some(url) },
            );
        }
        assert(self@.ports =~= with_url(old(self)@.ports, port, url@));
    }

    /// Forgets a request. What is to be stopped is returned.
    pub fn cancel_request(&mut self, request_id: &str) -> (stopped: Vec<Task>)
        requires
            old(self).wf(),
        ensures
            final(self).wf(),
            final(self)@ == (Proxy {
                requests: old(self)@.requests.remove(request_id@),
                ..old(self)@
            }),
            works(stopped@) == if old(self)@.requests.contains(request_id@) {
                seq![Work::Request(request_id@)]
            } else {
                Seq::empty()
            },
    {
        let mut stopped: Vec<Task> = Vec::new();
        if self.pending_requests.remove(request_id).is_some() {
            stopped.push(Task::Request(request_id.to_owned()));
            assert(works(stopped@) =~= seq![Work::Request(request_id@)]);
        } else {
            assert(works(stopped@) =~= Seq::empty());
        }
        stopped
    }

    /// Forgets all requests and all WebSockets. What is to be stopped is
    /// returned.
    pub fn cancel_all_requests(&mut self) -> (stopped: Vec<Task>)
        requires
            old(self).wf(),
        ensures
            final(self).wf(),
            final(self)@ == (Proxy {
                requests: Entries::empty(),
                sockets: Entries::empty(),
                ..old(self)@
            }),
            works(stopped@) == request_works(old(self)@.requests.keys) + socket_works(
                old(self)@.sockets.keys,
            ),
    {
        let ids = self.pending_requests.drain_keys();
        let mut stopped: Vec<Task> = Vec::new();
        let mut i: usize = 0;
        while i < ids.len()
            invariant
                i <= ids.len(),
                works(stopped@) == request_works(texts(ids@).take(i as int)),
            decreases ids.len() - i,
        {
            let ghost before = works(stopped@);
            stopped.push(Task::Request(ids[i].clone()));
            i = i + 1;
            assert(works(stopped@) =~= before.push(Work::Request(ids@[i - 1]@)));
            assert(works(stopped@) =~= request_works(texts(ids@).take(i as int)));
        }
        assert(texts(ids@).take(i as int) =~= texts(ids@));
        let mut sockets = self.cancel_all_ws();
        let ghost first = works(stopped@);
        let ghost second = works(sockets@);
        stopped.append(&mut sockets);
        assert(works(stopped@) =~= first + second);
        stopped
    }

    /// Forgets a WebSocket. What is to be stopped is returned.
    pub fn cancel_ws(&mut self, request_id: &str) -> (stopped: Vec<Task>)
        requires
            old(self).wf(),
        ensures
            final(self).wf(),
            final(self)@ == (Proxy {
                sockets: old(self)@.sockets.remove(request_id@),
                ..old(self)@
            }),
            works(stopped@) == if old(self)@.sockets.contains(request_id@) {
                seq![Work::Socket(request_id@)]
            } else {
                Seq::empty()
            },
    {
        let mut stopped: Vec<Task> = Vec::new();
        if self.pending_ws.remove(request_id).is_some() {
            stopped.push(Task::Socket(request_id.to_owned()));
            assert(works(stopped@) =~= seq![Work::Socket(request_id@)]);
        } else {
            assert(works(stopped@) =~= Seq::empty());
        }
        stopped
    }

    /// Forgets all WebSockets. What is to be stopped is returned.
    pub fn cancel_all_ws(&mut self) -> (stopped: Vec<Task>)
        requires
            old(self).wf(),
        ensures
            final(self).wf(),
            final(self)@ == (Proxy { sockets: Entries::empty(), ..old(self)@ }),
            works(stopped@) == socket_works(old(self)@.sockets.keys),
    {
        let ids = self.pending_ws.drain_keys();
        let mut stopped: Vec<Task> = Vec::new();
        let mut i: usize = 0;
        while i < ids.len()
            invariant
                i <= ids.len(),
                works(stopped@) == socket_works(texts(ids@).take(i as int)),
            decreases ids.len() - i,
        {
            let ghost before = works(stopped@);
            stopped.push(Task::Socket(ids[i].clone()));
            i = i + 1;
            assert(works(stopped@) =~= before.push(Work::Socket(ids@[i - 1]@)));
            assert(works(stopped@) =~= socket_works(texts(ids@).take(i as int)));
        }
        assert(texts(ids@).take(i as int) =~= texts(ids@));
        stopped
    }
}

/// The type of a frame with part of a request's body.
pub const FRAME_PROXY_REQUEST_BODY: u8 = 0x20;

/// The type of a frame with part of a response's body.
pub const FRAME_PROXY_RESPONSE_BODY: u8 = 0x21;

/// The type of a frame with a WebSocket message.
pub const FRAME_PROXY_WS_DATA: u8 = 0x22;

/// The mark of a WebSocket message that is text.
pub const WS_SUBTYPE_TEXT: u8 = 0x01;

/// The mark of a WebSocket message that is binary.
pub const WS_SUBTYPE_BINARY: u8 = 0x02;

/// Taking a port back undoes exposing it, if it was not exposed before.
pub proof fn unexpose_undoes_expose(ports: Map<u16, Exposure>, port: u16, public: bool)
    requires
        !ports.contains_key(port),
    ensures
        ports.insert(port, fresh(port, public)).remove(port) == ports,
{
    assert(ports.insert(port, fresh(port, public)).remove(port) =~= ports);
}

/// An address changes nothing but the address of its own port.
pub proof fn address_concerns_one_port(
    ports: Map<u16, Exposure>,
    port: u16,
    url: Seq<char>,
    other: u16,
)
    ensures
        with_url(ports, port, url).dom() == ports.dom(),
        other != port && ports.contains_key(other) ==> with_url(ports, port, url)[other]
            == ports[other],
        ports.contains_key(port) ==> with_url(ports, port, url)[port] == (Exposure {
            url: Some(url),
            ..ports[port]
        }),
{
    assert(with_url(ports, port, url).dom() =~= ports.dom());
}

} // verus!
