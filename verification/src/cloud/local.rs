//! Requests and WebSockets to local ports, on behalf of the cloud.
use vstd::prelude::*;
use vstd::slice::slice_to_vec;
use vstd::utf8::{
    decode_utf8, encode_utf8, encode_utf8_decode_utf8, encode_utf8_valid_utf8, is_ascii_chars,
    valid_utf8,
};

use super::proxy::{WsWrite, WsWriteMsg};
use crate::table::{Entries, Table};
use crate::text::{concat2, decimal_digits, push_decimal, same_text, texts};
use crate::tui::input::ascii_lower;

verus! {

/// A text in lower case, by the rules of Unicode.
pub uninterp spec fn lowercased(s: Seq<char>) -> Seq<char>;

/// The text that bytes are when what is no valid UTF-8 is replaced.
pub uninterp spec fn lossy_text(bytes: Seq<u8>) -> Seq<char>;

/// `str::to_lowercase`. Of ASCII text it changes the letters A to Z and nothing
/// else.
#[verifier::external_body]
fn lowercase(s: &str) -> (out: String)
    ensures
        out@ == lowercased(s@),
        is_ascii_chars(s@) ==> out@ == Seq::new(s@.len(), |i: int| ascii_lower(s@[i]) as char),
{
    s.to_lowercase()
}

/// `String::from_utf8_lossy`. Valid UTF-8 is taken as it is.
#[verifier::external_body]
fn text_lossy(bytes: &[u8]) -> (out: String)
    ensures
        out@ == lossy_text(bytes@),
        valid_utf8(bytes@) ==> out@ == decode_utf8(bytes@),
{
    String::from_utf8_lossy(bytes).into_owned()
}

/// The method of an HTTP request.
#[derive(Debug, Clone, Copy, PartialEq, Eq, Structural)]
pub enum HttpMethod {
    Get,
    Post,
    Put,
    Delete,
    Patch,
    Head,
    Options,
}

/// The method of a name. What is no method's name is taken for GET.
pub open spec fn method_named(name: Seq<char>) -> HttpMethod {
    if name == "POST"@ {
        HttpMethod::Post
    } else if name == "PUT"@ {
        HttpMethod::Put
    } else if name == "DELETE"@ {
        HttpMethod::Delete
    } else if name == "PATCH"@ {
        HttpMethod::Patch
    } else if name == "HEAD"@ {
        HttpMethod::Head
    } else if name == "OPTIONS"@ {
        HttpMethod::Options
    } else {
        HttpMethod::Get
    }
}

/// Finds the method of a name.
pub fn http_method(name: &str) -> (method: HttpMethod)
    ensures
        method == method_named(name@),
{
    if same_text(name, "POST") {
        HttpMethod::Post
    } else if same_text(name, "PUT") {
        HttpMethod::Put
    } else if same_text(name, "DELETE") {
        HttpMethod::Delete
    } else if same_text(name, "PATCH") {
        HttpMethod::Patch
    } else if same_text(name, "HEAD") {
        HttpMethod::Head
    } else if same_text(name, "OPTIONS") {
        HttpMethod::Options
    } else {
        HttpMethod::Get
    }
}

/// Whether a header, named in lower case, is for one hop only.
pub open spec fn hop_by_hop(name: Seq<char>) -> bool {
    name == "host"@ || name == "connection"@ || name == "transfer-encoding"@ || name
        == "keep-alive"@ || name == "upgrade"@
}

/// Whether a header, named in lower case, belongs to the handshake of a
/// WebSocket.
pub open spec fn of_handshake(name: Seq<char>) -> bool {
    name == "host"@ || name == "connection"@ || name == "upgrade"@ || name
        == "sec-websocket-key"@ || name == "sec-websocket-version"@
}

/// Whether a header, named in lower case, is for one hop only.
pub fn is_hop_by_hop(name: &str) -> (yes: bool)
    ensures
        yes == hop_by_hop(name@),
{
    same_text(name, "host") || same_text(name, "connection") || same_text(
        name,
        "transfer-encoding",
    ) || same_text(name, "keep-alive") || same_text(name, "upgrade")
}

/// Whether a header, named in lower case, belongs to the handshake of a
/// WebSocket.
pub fn is_of_handshake(name: &str) -> (yes: bool)
    ensures
        yes == of_handshake(name@),
{
    same_text(name, "host") || same_text(name, "connection") || same_text(name, "upgrade")
        || same_text(name, "sec-websocket-key") || same_text(name, "sec-websocket-version")
}

/// Header lines as contracts speak of them.
pub open spec fn header_lines(list: Seq<(String, String)>) -> Seq<(Seq<char>, Seq<char>)> {
    Seq::new(list.len(), |i: int| (list[i].0@, list[i].1@))
}

/// The header lines that are passed on with a request, in their order.
pub open spec fn request_lines(lines: Seq<(Seq<char>, Seq<char>)>) -> Seq<(Seq<char>, Seq<char>)>
    decreases lines.len(),
{
    if lines.len() == 0 {
        lines
    } else {
        let before = request_lines(lines.drop_last());
        if hop_by_hop(lowercased(lines.last().0)) {
            before
        } else {
            before.push(lines.last())
        }
    }
}

/// The header lines that are passed on with the handshake of a WebSocket, in
/// their order.
pub open spec fn handshake_lines(lines: Seq<(Seq<char>, Seq<char>)>) -> Seq<(Seq<char>, Seq<char>)>
    decreases lines.len(),
{
    if lines.len() == 0 {
        lines
    } else {
        let before = handshake_lines(lines.drop_last());
        if of_handshake(lowercased(lines.last().0)) {
            before
        } else {
            before.push(lines.last())
        }
    }
}

/// A request to a local port.
#[derive(Debug)]
pub struct LocalRequest {
    pub method: HttpMethod,
    pub url: String,
    pub headers: Vec<(String, String)>,
}

/// A WebSocket on a local port.
#[derive(Debug)]
pub struct LocalSocket {
    pub url: String,
    pub headers: Vec<(String, String)>,
}

/// An address on this machine.
pub open spec fn local_url(scheme: Seq<char>, port: u16, path: Seq<char>) -> Seq<char> {
    scheme + "://127.0.0.1:"@ + decimal_digits(port as nat) + path
}

fn make_url(scheme: &str, port: u16, path: &str) -> (url: String)
    ensures
        url@ == local_url(scheme@, port, path@),
{
    let mut url = concat2(scheme, "://127.0.0.1:");
    push_decimal(&mut url, port as u64);
    url.append(path);
    url
}

/// Makes the request to a local port that a request from the cloud stands for.
pub fn local_request(
    method: &str,
    port: u16,
    path: &str,
    headers: &Vec<(String, String)>,
) -> (request: LocalRequest)
    ensures
        request.method == method_named(method@),
        request.url@ == local_url("http"@, port, path@),
        header_lines(request.headers@) == request_lines(header_lines(headers@)),
{
    let ghost all = header_lines(headers@);
    let mut kept: Vec<(String, String)> = Vec::new();
    let mut i: usize = 0;
    assert(header_lines(kept@) =~= request_lines(all.take(0)));
    while i < headers.len()
        invariant
            i <= headers.len(),
            all == header_lines(headers@),
            header_lines(kept@) == request_lines(all.take(i as int)),
        decreases headers.len() - i,
    {
        let ghost before = header_lines(kept@);
        let lower = lowercase(headers[i].0.as_str());
        proof {
            assert(all.take(i + 1).drop_last() =~= all.take(i as int));
            assert(all.take(i + 1).last() == all[i as int]);
        }
        if !is_hop_by_hop(lower.as_str()) {
            kept.push((headers[i].0.clone(), headers[i].1.clone()));
            assert(header_lines(kept@) =~= before.push(all[i as int]));
        }
        i = i + 1;
    }
    assert(all.take(i as int) =~= all);
    LocalRequest {
        method: http_method(method),
        url: make_url("http", port, path),
        headers: kept,
    }
}

/// Makes the WebSocket on a local port that an upgrade from the cloud stands for.
pub fn local_socket(port: u16, path: &str, headers: &Vec<(String, String)>) -> (socket: LocalSocket)
    ensures
        socket.url@ == local_url("ws"@, port, path@),
        header_lines(socket.headers@) == handshake_lines(header_lines(headers@)),
{
    let ghost all = header_lines(headers@);
    let mut kept: Vec<(String, String)> = Vec::new();
    let mut i: usize = 0;
    assert(header_lines(kept@) =~= handshake_lines(all.take(0)));
    while i < headers.len()
        invariant
            i <= headers.len(),
            all == header_lines(headers@),
            header_lines(kept@) == handshake_lines(all.take(i as int)),
        decreases headers.len() - i,
    {
        let ghost before = header_lines(kept@);
        let lower = lowercase(headers[i].0.as_str());
        proof {
            assert(all.take(i + 1).drop_last() =~= all.take(i as int));
            assert(all.take(i + 1).last() == all[i as int]);
        }
        if !is_of_handshake(lower.as_str()) {
            kept.push((headers[i].0.clone(), headers[i].1.clone()));
            assert(header_lines(kept@) =~= before.push(all[i as int]));
        }
        i = i + 1;
    }
    assert(all.take(i as int) =~= all);
    LocalSocket { url: make_url("ws", port, path), headers: kept }
}

/// The values of the header lines with one name, in their order.
#[derive(Debug)]
pub struct HeaderValues {
    pub values: Vec<String>,
}

impl View for HeaderValues {
    type V = Seq<Seq<char>>;

    open spec fn view(&self) -> Seq<Seq<char>> {
        texts(self.values@)
    }
}

/// The value of a header line, which is empty where it is no text.
pub open spec fn line_value(value: Option<String>) -> Seq<char> {
    match value {
        Some(text) => text@,
        None => Seq::empty(),
    }
}

/// The header lines of a response, grouped by name.
pub open spec fn grouped(lines: Seq<(String, Option<String>)>) -> Entries<Seq<Seq<char>>>
    decreases lines.len(),
{
    if lines.len() == 0 {
        Entries::empty()
    } else {
        let before = grouped(lines.drop_last());
        let name = lines.last().0@;
        let value = line_value(lines.last().1);
        if before.contains(name) {
            before.insert(name, before.at(name).push(value))
        } else {
            before.insert(name, seq![value])
        }
    }
}

/// Groups the header lines of a response by name.
pub fn group_headers(lines: &Vec<(String, Option<String>)>) -> (table: Table<HeaderValues>)
    ensures
        table.wf(),
        table@ == grouped(lines@),
{
    let mut table: Table<HeaderValues> = Table::new();
    let mut i: usize = 0;
    while i < lines.len()
        invariant
            i <= lines.len(),
            table.wf(),
            table@ == grouped(lines@.take(i as int)),
        decreases lines.len() - i,
    {
        let ghost before = table@;
        let name = lines[i].0.clone();
        let value = match &lines[i].1 {
            Some(text) => text.clone(),
            None => String::new(),
        };
        proof {
            assert(lines@.take(i + 1).drop_last() =~= lines@.take(i as int));
            assert(lines@.take(i + 1).last() == lines@[i as int]);
            assert(value@ =~= line_value(lines@[i as int].1));
        }
        if table.contains_key(name.as_str()) {
            if let Some(found) = table.get_mut(name.as_str()) {
                let ghost had = found@;
                found.values.push(value);
                assert(found@ =~= had.push(value@));
            }
        } else {
            let values = HeaderValues { values: vec![value] };
            assert(values@ =~= seq![value@]);
            table.insert(name, values);
        }
        i = i + 1;
    }
    assert(lines@.take(i as int) =~= lines@);
    table
}

/// What happens to a request or a WebSocket on a local port.
pub enum ProxyEvent {
    Head { request_id: String, status: u16, headers: Table<HeaderValues> },
    Body { request_id: String, data: Vec<u8> },
    End { request_id: String },
    Error { request_id: String, message: String },
    WsOpen { request_id: String },
    WsClose { request_id: String, code: u16, reason: String },
    WsError { request_id: String, message: String },
    WsData { request_id: String, is_text: bool, data: Vec<u8> },
}

/// What happens on a local port, as contracts speak of it.
pub enum Happening {
    Head { id: Seq<char>, status: u16, headers: Entries<Seq<Seq<char>>> },
    Body { id: Seq<char>, data: Seq<u8> },
    End { id: Seq<char> },
    Error { id: Seq<char>, message: Seq<char> },
    WsOpen { id: Seq<char> },
    WsClose { id: Seq<char>, code: u16, reason: Seq<char> },
    WsError { id: Seq<char>, message: Seq<char> },
    WsData { id: Seq<char>, is_text: bool, data: Seq<u8> },
}

impl View for ProxyEvent {
    type V = Happening;

    open spec fn view(&self) -> Happening {
        match *self {
            ProxyEvent::Head { request_id, status, headers } => Happening::Head {
                id: request_id@,
                status,
                headers: headers@,
            },
            ProxyEvent::Body { request_id, data } => Happening::Body {
                id: request_id@,
                data: data@,
            },
            ProxyEvent::End { request_id } => Happening::End { id: request_id@ },
            ProxyEvent::Error { request_id, message } => Happening::Error {
                id: request_id@,
                message: message@,
            },
            ProxyEvent::WsOpen { request_id } => Happening::WsOpen { id: request_id@ },
            ProxyEvent::WsClose { request_id, code, reason } => Happening::WsClose {
                id: request_id@,
                code,
                reason: reason@,
            },
            ProxyEvent::WsError { request_id, message } => Happening::WsError {
                id: request_id@,
                message: message@,
            },
            ProxyEvent::WsData { request_id, is_text, data } => Happening::WsData {
                id: request_id@,
                is_text,
                data: data@,
            },
        }
    }
}

impl ProxyEvent {
    /// The headers of a response are listed once each.
    pub open spec fn wf(&self) -> bool {
        match *self {
            ProxyEvent::Head { headers, .. } => headers.wf(),
            _ => true,
        }
    }
}

/// How far a request to a local port has come.
pub enum RequestProgress {
    /// There is no response, for this reason.
    Unanswered(String),
    /// The response has begun, with these header lines.
    Answered { status: u16, lines: Vec<(String, Option<String>)> },
    /// A part of the body has come.
    Chunk(Vec<u8>),
    /// The body has broken off, for this reason.
    Broken(String),
    /// The body is complete.
    Complete,
}

/// What is reported of a request, and whether that is the last report.
pub open spec fn request_report(id: Seq<char>, progress: RequestProgress) -> (Happening, bool) {
    match progress {
        RequestProgress::Unanswered(reason) => (
            Happening::Error { id, message: "localhost connection failed: "@ + reason@ },
            true,
        ),
        RequestProgress::Answered { status, lines } => (
            Happening::Head { id, status, headers: grouped(lines@) },
            false,
        ),
        RequestProgress::Chunk(data) => (Happening::Body { id, data: data@ }, false),
        RequestProgress::Broken(reason) => (
            Happening::Error { id, message: "read error: "@ + reason@ },
            true,
        ),
        RequestProgress::Complete => (Happening::End { id }, true),
    }
}

/// Reports how far a request has come. The second part of the result says
/// whether this is the last report.
pub fn report_request(request_id: &str, progress: RequestProgress) -> (r: (ProxyEvent, bool))
    ensures
        (r.0@, r.1) == request_report(request_id@, progress),
        r.0.wf(),
{
    let request_id = request_id.to_owned();
    match progress {
        RequestProgress::Unanswered(reason) => (
            ProxyEvent::Error {
                request_id,
                message: concat2("localhost connection failed: ", reason.as_str()),
            },
            true,
        ),
        RequestProgress::Answered { status, lines } => (
            ProxyEvent::Head { request_id, status, headers: group_headers(&lines) },
            false,
        ),
        RequestProgress::Chunk(data) => (ProxyEvent::Body { request_id, data }, false),
        RequestProgress::Broken(reason) => (
            ProxyEvent::Error { request_id, message: concat2("read error: ", reason.as_str()) },
            true,
        ),
        RequestProgress::Complete => (ProxyEvent::End { request_id }, true),
    }
}

/// How far the reports of a request have come.
#[derive(Debug, Clone, Copy, PartialEq, Eq, Structural)]
pub enum RequestStage {
    /// Nothing has been reported.
    Asked,
    /// The head of the response has been reported.
    Streaming,
    /// The last report is out.
    Over,
}

/// Whether a request can come so far at a stage: first it is answered or not, and
/// then the body comes to its end.
pub open spec fn possible(stage: RequestStage, progress: RequestProgress) -> bool {
    match progress {
        RequestProgress::Unanswered(_) | RequestProgress::Answered { .. } => stage
            == RequestStage::Asked,
        RequestProgress::Chunk(_) | RequestProgress::Broken(_) | RequestProgress::Complete => stage
            == RequestStage::Streaming,
    }
}

/// The stage after a report.
pub open spec fn next_stage(stage: RequestStage, progress: RequestProgress) -> RequestStage {
    if !possible(stage, progress) {
        stage
    } else {
        match progress {
            RequestProgress::Answered { .. } | RequestProgress::Chunk(_) => RequestStage::Streaming,
            _ => RequestStage::Over,
        }
    }
}

/// The reports of a request to a local port, in order.
#[derive(Debug)]
pub struct RequestReports {
    request_id: String,
    stage: RequestStage,
}

impl RequestReports {
    /// The request.
    pub closed spec fn id(&self) -> Seq<char> {
        self.request_id@
    }

    /// How far the reports have come.
    pub closed spec fn stage(&self) -> RequestStage {
        self.stage
    }

    /// Nothing has been reported of a request.
    pub fn new(request_id: String) -> (reports: Self)
        ensures
            reports.id() == request_id@,
            reports.stage() == RequestStage::Asked,
    {
        RequestReports { request_id, stage: RequestStage::Asked }
    }

    /// Whether the last report is out.
    pub fn is_over(&self) -> (yes: bool)
        ensures
            yes == (self.stage() == RequestStage::Over),
    {
        self.stage == RequestStage::Over
    }

    /// Reports how far the request has come. What cannot happen at this stage is
    /// not reported.
    pub fn follow(&mut self, progress: RequestProgress) -> (event: Option<ProxyEvent>)
        ensures
            final(self).id() == old(self).id(),
            final(self).stage() == next_stage(old(self).stage(), progress),
            event is Some == possible(old(self).stage(), progress),
            event matches Some(e) ==> e.wf() && e@ == request_report(old(self).id(), progress).0,
    {
        let fits = match &progress {
            RequestProgress::Unanswered(_) | RequestProgress::Answered { .. } => self.stage
                == RequestStage::Asked,
            _ => self.stage == RequestStage::Streaming,
        };
        if !fits {
            return None;
        }
        let (event, last) = report_request(self.request_id.as_str(), progress);
        self.stage = if last {
            RequestStage::Over
        } else {
            RequestStage::Streaming
        };
        Some(event)
    }
}

/// The stage after some progress.
pub open spec fn stage_after(course: Seq<RequestProgress>) -> RequestStage
    decreases course.len(),
{
    if course.len() == 0 {
        RequestStage::Asked
    } else {
        next_stage(stage_after(course.drop_last()), course.last())
    }
}

/// All that is reported of a request in its course.
pub open spec fn reported(id: Seq<char>, course: Seq<RequestProgress>) -> Seq<Happening>
    decreases course.len(),
{
    if course.len() == 0 {
        Seq::empty()
    } else {
        let before = reported(id, course.drop_last());
        if possible(stage_after(course.drop_last()), course.last()) {
            before.push(request_report(id, course.last()).0)
        } else {
            before
        }
    }
}

/// The body of a response as it was read in the course of a request.
pub open spec fn body_read(course: Seq<RequestProgress>) -> Seq<u8>
    decreases course.len(),
{
    if course.len() == 0 {
        Seq::empty()
    } else {
        let before = body_read(course.drop_last());
        match course.last() {
            RequestProgress::Chunk(data) => if possible(
                stage_after(course.drop_last()),
                course.last(),
            ) {
                before + data@
            } else {
                before
            },
            _ => before,
        }
    }
}

/// The data of all body reports of a list.
pub open spec fn bodies(list: Seq<Happening>) -> Seq<u8>
    decreases list.len(),
{
    if list.len() == 0 {
        Seq::empty()
    } else {
        let before = bodies(list.drop_last());
        match list.last() {
            Happening::Body { data, .. } => before + data,
            _ => before,
        }
    }
}

/// Whether a report is one of a request.
pub open spec fn reports_on(happening: Happening, id: Seq<char>) -> bool {
    match happening {
        Happening::Head { id: of, .. } => of == id,
        Happening::Body { id: of, .. } => of == id,
        Happening::End { id: of } => of == id,
        Happening::Error { id: of, .. } => of == id,
        _ => false,
    }
}

/// Whether a list is what may have been reported of a request up to a stage:
/// nothing; a head and parts of the body; or that and one end or error, or one
/// error alone.
pub open spec fn ordered(list: Seq<Happening>, stage: RequestStage) -> bool {
    let n = list.len() as int;
    match stage {
        RequestStage::Asked => n == 0,
        RequestStage::Streaming => {
            &&& n > 0
            &&& list[0] is Head
            &&& forall|i: int| 0 < i < n ==> (#[trigger] list[i]) is Body
        },
        RequestStage::Over => {
            ||| n == 1 && list[0] is Error
            ||| {
                &&& n > 1
                &&& list[0] is Head
                &&& forall|i: int| 0 < i < n - 1 ==> (#[trigger] list[i]) is Body
                &&& list[n - 1] is End || list[n - 1] is Error
            }
        },
    }
}

/// Whatever the course of a request, its reports come in order, each of them on
/// that request: an error, or a head, the body in parts, and then exactly one end
/// or error. The parts together are the body as it was read.
pub proof fn requests_are_reported_in_order(id: Seq<char>, course: Seq<RequestProgress>)
    ensures
        ordered(reported(id, course), stage_after(course)),
        bodies(reported(id, course)) == body_read(course),
        forall|i: int|
            0 <= i < reported(id, course).len() ==> reports_on(
                #[trigger] reported(id, course)[i],
                id,
            ),
    decreases course.len(),
{
    if course.len() > 0 {
        requests_are_reported_in_order(id, course.drop_last());
        let before = reported(id, course.drop_last());
        let happening = request_report(id, course.last()).0;
        assert(before.push(happening).drop_last() =~= before);
        assert(before.push(happening).last() == happening);
    }
}

/// Nothing is reported of a request after its end or its failure.
pub proof fn nothing_follows_the_last_report(
    id: Seq<char>,
    course: Seq<RequestProgress>,
    progress: RequestProgress,
)
    requires
        stage_after(course) == RequestStage::Over,
    ensures
        reported(id, course.push(progress)) == reported(id, course),
        stage_after(course.push(progress)) == RequestStage::Over,
{
    assert(course.push(progress).drop_last() =~= course);
}

/// What a WebSocket on a local port has done.
pub enum SocketProgress {
    /// It could not be opened, for this reason.
    Refused(String),
    /// It was not opened in time.
    TimedOut,
    /// It is open.
    Opened,
    /// It sent text.
    Text(String),
    /// It sent bytes.
    Binary(Vec<u8>),
    /// It said goodbye, with a code and a reason or without.
    Goodbye(Option<(u16, String)>),
    /// It is gone without a goodbye.
    Lost,
    /// It sent something that is for nobody else.
    Other,
}

/// The code of a WebSocket that ended as it should.
pub const CLOSE_NORMAL: u16 = 1000;

/// The code of a WebSocket that ended without a goodbye.
pub const CLOSE_ABNORMAL: u16 = 1006;

/// What is reported of a WebSocket, and whether that is the last report.
pub open spec fn socket_report(id: Seq<char>, progress: SocketProgress) -> (Option<
    Happening,
>, bool) {
    match progress {
        SocketProgress::Refused(reason) => (
            Some(Happening::WsError { id, message: "WS connect failed: "@ + reason@ }),
            true,
        ),
        SocketProgress::TimedOut => (
            Some(Happening::WsError { id, message: "WS connect timeout"@ }),
            true,
        ),
        SocketProgress::Opened => (Some(Happening::WsOpen { id }), false),
        SocketProgress::Text(text) => (
            Some(Happening::WsData { id, is_text: true, data: encode_utf8(text@) }),
            false,
        ),
        SocketProgress::Binary(data) => (
            Some(Happening::WsData { id, is_text: false, data: data@ }),
            false,
        ),
        SocketProgress::Goodbye(None) => (
            Some(Happening::WsClose { id, code: CLOSE_NORMAL, reason: Seq::empty() }),
            true,
        ),
        SocketProgress::Goodbye(Some((code, reason))) => (
            Some(Happening::WsClose { id, code, reason: reason@ }),
            true,
        ),
        SocketProgress::Lost => (
            Some(Happening::WsClose { id, code: CLOSE_ABNORMAL, reason: "connection lost"@ }),
            true,
        ),
        SocketProgress::Other => (None, false),
    }
}

/// Reports what a WebSocket has done. The second part of the result says whether
/// this is the last report.
pub fn report_socket(request_id: &str, progress: SocketProgress) -> (r: (Option<ProxyEvent>, bool))
    ensures
        match r.0 {
            Some(event) => event.wf() && (Some(event@), r.1) == socket_report(
                request_id@,
                progress,
            ),
            None => (None::<Happening>, r.1) == socket_report(request_id@, progress),
        },
{
    let request_id = request_id.to_owned();
    match progress {
        SocketProgress::Refused(reason) => (
            Some(
                ProxyEvent::WsError {
                    request_id,
                    message: concat2("WS connect failed: ", reason.as_str()),
                },
            ),
            true,
        ),
        SocketProgress::TimedOut => (
            Some(
                ProxyEvent::WsError { request_id, message: "WS connect timeout".to_string() },
            ),
            true,
        ),
        SocketProgress::Opened => (Some(ProxyEvent::WsOpen { request_id }), false),
        SocketProgress::Text(text) => (
            Some(
                ProxyEvent::WsData {
                    request_id,
                    is_text: true,
                    data: slice_to_vec(text.as_str().as_bytes()),
                },
            ),
            false,
        ),
        SocketProgress::Binary(data) => (
            Some(ProxyEvent::WsData { request_id, is_text: false, data }),
            false,
        ),
        SocketProgress::Goodbye(frame) => match frame {
            None => (
                Some(
                    ProxyEvent::WsClose { request_id, code: CLOSE_NORMAL, reason: String::new() },
                ),
                true,
            ),
            Some((code, reason)) => (
                Some(ProxyEvent::WsClose { request_id, code, reason }),
                true,
            ),
        },
        SocketProgress::Lost => (
            Some(
                ProxyEvent::WsClose {
                    request_id,
                    code: CLOSE_ABNORMAL,
                    reason: "connection lost".to_string(),
                },
            ),
            true,
        ),
        SocketProgress::Other => (None, false),
    }
}

/// A message that is sent over a WebSocket.
#[derive(Debug)]
pub enum SocketMessage {
    Text(String),
    Binary(Vec<u8>),
    Close { code: u16, reason: String },
}

/// A message that is sent over a WebSocket, as contracts speak of it.
pub enum Spoken {
    Text(Seq<char>),
    Binary(Seq<u8>),
    Close { code: u16, reason: Seq<char> },
}

impl View for SocketMessage {
    type V = Spoken;

    open spec fn view(&self) -> Spoken {
        match *self {
            SocketMessage::Text(text) => Spoken::Text(text@),
            SocketMessage::Binary(data) => Spoken::Binary(data@),
            SocketMessage::Close { code, reason } => Spoken::Close { code, reason: reason@ },
        }
    }
}

/// How a message for a WebSocket is sent. `text` is what its payload is as text.
pub open spec fn spoken(message: WsWrite, text: Seq<char>) -> Spoken {
    match message {
        WsWrite::Data { is_text, payload } => if is_text {
            Spoken::Text(text)
        } else {
            Spoken::Binary(payload)
        },
        WsWrite::Close { code, reason } => Spoken::Close { code, reason },
    }
}

/// The payload of a message for a WebSocket as text. A goodbye has none.
pub open spec fn payload_text(message: WsWrite) -> Seq<char> {
    match message {
        WsWrite::Data { payload, .. } => lossy_text(payload),
        WsWrite::Close { .. } => Seq::empty(),
    }
}

/// Makes the message that is sent, given its payload as text.
pub fn speak(message: WsWriteMsg, text: String) -> (out: SocketMessage)
    ensures
        out@ == spoken(message@, text@),
{
    match message {
        WsWriteMsg::Data { is_text, payload } => {
            if is_text {
                SocketMessage::Text(text)
            } else {
                SocketMessage::Binary(payload)
            }
        },
        WsWriteMsg::Close { code, reason } => SocketMessage::Close { code, reason },
    }
}

/// Makes the message that is sent over a WebSocket.
pub fn socket_message(message: WsWriteMsg) -> (out: SocketMessage)
    ensures
        out@ == spoken(message@, payload_text(message@)),
        message@ matches WsWrite::Data { is_text: true, payload } ==> valid_utf8(payload)
            ==> out@ == Spoken::Text(decode_utf8(payload)),
{
    let text = match &message {
        WsWriteMsg::Data { payload, .. } => text_lossy(payload.as_slice()),
        WsWriteMsg::Close { .. } => String::new(),
    };
    assert(text@ =~= payload_text(message@));
    speak(message, text)
}

/// A request is reported to its end: the report that says so is the last one,
/// and every other one is followed by another.
pub proof fn last_report_ends_the_request(id: Seq<char>, progress: RequestProgress)
    ensures
        ({
            let (happening, last) = request_report(id, progress);
            last == (happening is End || happening is Error)
        }),
{
}

/// A WebSocket is reported to its end: the report that says so is the last one.
pub proof fn last_report_ends_the_socket(id: Seq<char>, progress: SocketProgress)
    ensures
        ({
            let (happening, last) = socket_report(id, progress);
            last == (happening matches Some(h) && (h is WsClose || h is WsError))
        }),
{
}

/// Of the header lines of a request, those for one hop only stop here, and all
/// others are passed on.
pub proof fn hop_by_hop_lines_stop_here(
    lines: Seq<(Seq<char>, Seq<char>)>,
    line: (Seq<char>, Seq<char>),
)
    ensures
        request_lines(lines).contains(line) <==> lines.contains(line) && !hop_by_hop(
            lowercased(line.0),
        ),
    decreases lines.len(),
{
    if lines.len() > 0 {
        let before = lines.drop_last();
        hop_by_hop_lines_stop_here(before, line);
        lemma_contains_last(lines, line);
        if !hop_by_hop(lowercased(lines.last().0)) {
            let kept = request_lines(before).push(lines.last());
            lemma_contains_last(kept, line);
            assert(kept.drop_last() =~= request_lines(before));
        }
    }
}

/// Of the header lines of an upgrade, those of the handshake stop here, and all
/// others are passed on.
pub proof fn handshake_lines_stop_here(
    lines: Seq<(Seq<char>, Seq<char>)>,
    line: (Seq<char>, Seq<char>),
)
    ensures
        handshake_lines(lines).contains(line) <==> lines.contains(line) && !of_handshake(
            lowercased(line.0),
        ),
    decreases lines.len(),
{
    if lines.len() > 0 {
        let before = lines.drop_last();
        handshake_lines_stop_here(before, line);
        lemma_contains_last(lines, line);
        if !of_handshake(lowercased(lines.last().0)) {
            let kept = handshake_lines(before).push(lines.last());
            lemma_contains_last(kept, line);
            assert(kept.drop_last() =~= handshake_lines(before));
        }
    }
}

proof fn lemma_contains_last<A>(list: Seq<A>, item: A)
    requires
        list.len() > 0,
    ensures
        list.contains(item) <==> list.drop_last().contains(item) || list.last() == item,
{
    if list.contains(item) {
        let i = list.index_of(item);
        if i < list.len() - 1 {
            assert(list.drop_last()[i] == item);
        }
    }
    if list.drop_last().contains(item) {
        let i = list.drop_last().index_of(item);
        assert(list[i] == item);
    }
}

/// The values of the header lines with a name, in their order.
pub open spec fn values_of(lines: Seq<(String, Option<String>)>, name: Seq<char>) -> Seq<Seq<char>>
    decreases lines.len(),
{
    if lines.len() == 0 {
        Seq::empty()
    } else {
        let before = values_of(lines.drop_last(), name);
        if lines.last().0@ == name {
            before.push(line_value(lines.last().1))
        } else {
            before
        }
    }
}

/// Grouping loses no header line and no order: under each name stand the values
/// of its lines, and no name stands without a line.
pub proof fn grouping_loses_nothing(lines: Seq<(String, Option<String>)>, name: Seq<char>)
    ensures
        grouped(lines).contains(name) <==> values_of(lines, name).len() > 0,
        grouped(lines).contains(name) ==> grouped(lines).at(name) == values_of(lines, name),
    decreases lines.len(),
{
    if lines.len() > 0 {
        grouping_loses_nothing(lines.drop_last(), name);
        grouping_loses_nothing(lines.drop_last(), lines.last().0@);
        if lines.last().0@ == name && !grouped(lines.drop_last()).contains(name) {
            assert(values_of(lines.drop_last(), name) =~= Seq::empty());
            assert(values_of(lines, name) =~= seq![line_value(lines.last().1)]);
        }
    }
}

/// A method is found by its name in capitals and by nothing else. Every other
/// name is taken for GET.
pub proof fn methods_are_found_by_name(name: Seq<char>)
    ensures
        method_named(name) == HttpMethod::Post <==> name == "POST"@,
        method_named(name) == HttpMethod::Put <==> name == "PUT"@,
        method_named(name) == HttpMethod::Delete <==> name == "DELETE"@,
        method_named(name) == HttpMethod::Patch <==> name == "PATCH"@,
        method_named(name) == HttpMethod::Head <==> name == "HEAD"@,
        method_named(name) == HttpMethod::Options <==> name == "OPTIONS"@,
        method_named("GET"@) == HttpMethod::Get,
{
    reveal_strlit("GET");
    reveal_strlit("POST");
    reveal_strlit("PUT");
    reveal_strlit("DELETE");
    reveal_strlit("PATCH");
    reveal_strlit("HEAD");
    reveal_strlit("OPTIONS");
    assert("GET"@.len() == 3 && "POST"@.len() == 4 && "PUT"@.len() == 3 && "DELETE"@.len() == 6);
    assert("PATCH"@.len() == 5 && "HEAD"@.len() == 4 && "OPTIONS"@.len() == 7);
    assert("GET"@[0] != "PUT"@[0]);
    assert("POST"@[0] != "HEAD"@[0]);
}

/// Header lines are passed on one by one in their order: what is passed on of two
/// lists is what is passed on of each, and of a single line either nothing or
/// the line as it is.
pub proof fn header_lines_pass_one_by_one(
    a: Seq<(Seq<char>, Seq<char>)>,
    b: Seq<(Seq<char>, Seq<char>)>,
    line: (Seq<char>, Seq<char>),
)
    ensures
        request_lines(a + b) == request_lines(a) + request_lines(b),
        handshake_lines(a + b) == handshake_lines(a) + handshake_lines(b),
        ({
            let name = lowercased(line.0);
            let both = name == "host"@ || name == "connection"@ || name == "upgrade"@;
            &&& request_lines(seq![line]) == if both || name == "transfer-encoding"@ || name
                == "keep-alive"@ {
                Seq::empty()
            } else {
                seq![line]
            }
            &&& handshake_lines(seq![line]) == if both || name == "sec-websocket-key"@ || name
                == "sec-websocket-version"@ {
                Seq::empty()
            } else {
                seq![line]
            }
        }),
    decreases b.len(),
{
    reveal_with_fuel(request_lines, 2);
    reveal_with_fuel(handshake_lines, 2);
    assert(seq![line].drop_last() =~= Seq::empty());
    assert(Seq::empty().push(line) =~= seq![line]);
    if b.len() == 0 {
        assert(a + b =~= a);
        assert(request_lines(a) + request_lines(b) =~= request_lines(a));
        assert(handshake_lines(a) + handshake_lines(b) =~= handshake_lines(a));
    } else {
        header_lines_pass_one_by_one(a, b.drop_last(), line);
        assert((a + b).drop_last() =~= a + b.drop_last());
        assert((a + b).last() == b.last());
        assert(request_lines(a + b) =~= request_lines(a) + request_lines(b));
        assert(handshake_lines(a + b) =~= handshake_lines(a) + handshake_lines(b));
    }
}

/// The headers of a response are named in the order in which their first lines
/// came: another line changes no place, and a line with a new name puts it last.
/// A value that is no text is empty.
pub proof fn headers_are_named_as_they_came(
    lines: Seq<(String, Option<String>)>,
    name: String,
    value: Option<String>,
)
    ensures
        ({
            let before = grouped(lines);
            let after = grouped(lines.push((name, value)));
            let text = match value {
                Some(value) => value@,
                None => Seq::empty(),
            };
            &&& before.contains(name@) ==> after.keys == before.keys && after.at(name@)
                == before.at(name@).push(text)
            &&& !before.contains(name@) ==> after.keys == before.keys.push(name@) && after.at(
                name@,
            ) == seq![text]
            &&& forall|other: Seq<char>|
                other != name@ ==> #[trigger] after.contains(other) == before.contains(other)
            &&& forall|other: Seq<char>|
                other != name@ && before.contains(other) ==> #[trigger] after.at(other)
                    == before.at(other)
            &&& grouped(Seq::empty()) == Entries::<Seq<Seq<char>>>::empty()
        }),
{
    let more = lines.push((name, value));
    assert(more.drop_last() =~= lines);
}

/// What is reported of a request names it and says what was heard: the status and
/// the headers, each part of the body as it is, the end, or why there is none.
pub proof fn request_reports_say_what_was_heard(
    id: Seq<char>,
    reason: String,
    status: u16,
    lines: Vec<(String, Option<String>)>,
    data: Vec<u8>,
)
    ensures
        request_report(id, RequestProgress::Unanswered(reason)) == (
            Happening::Error { id, message: "localhost connection failed: "@ + reason@ },
            true,
        ),
        request_report(id, RequestProgress::Answered { status, lines }) == (
            Happening::Head { id, status, headers: grouped(lines@) },
            false,
        ),
        request_report(id, RequestProgress::Chunk(data)) == (
            Happening::Body { id, data: data@ },
            false,
        ),
        request_report(id, RequestProgress::Broken(reason)) == (
            Happening::Error { id, message: "read error: "@ + reason@ },
            true,
        ),
        request_report(id, RequestProgress::Complete) == (Happening::End { id }, true),
{
}

/// What is reported of a WebSocket names it and says what it did: text as bytes
/// that decode to that text, bytes as they are, and the code and the reason of its
/// end, which are 1000 and none where it gave none, and 1006 where it was lost.
pub proof fn socket_reports_say_what_it_did(
    id: Seq<char>,
    text: String,
    data: Vec<u8>,
    code: u16,
)
    ensures
        socket_report(id, SocketProgress::Refused(text)) == (
            Some(Happening::WsError { id, message: "WS connect failed: "@ + text@ }),
            true,
        ),
        socket_report(id, SocketProgress::TimedOut) == (
            Some(Happening::WsError { id, message: "WS connect timeout"@ }),
            true,
        ),
        socket_report(id, SocketProgress::Opened) == (Some(Happening::WsOpen { id }), false),
        ({
            let (report, last) = socket_report(id, SocketProgress::Text(text));
            &&& !last
            &&& report matches Some(Happening::WsData { id: of, is_text, data: bytes })
            &&& of == id && is_text
            &&& valid_utf8(bytes) && decode_utf8(bytes) == text@
        }),
        socket_report(id, SocketProgress::Binary(data)) == (
            Some(Happening::WsData { id, is_text: false, data: data@ }),
            false,
        ),
        socket_report(id, SocketProgress::Goodbye(Some((code, text)))) == (
            Some(Happening::WsClose { id, code, reason: text@ }),
            true,
        ),
        socket_report(id, SocketProgress::Goodbye(None)) == (
            Some(Happening::WsClose { id, code: 1000, reason: Seq::empty() }),
            true,
        ),
        socket_report(id, SocketProgress::Lost) == (
            Some(Happening::WsClose { id, code: 1006, reason: "connection lost"@ }),
            true,
        ),
        socket_report(id, SocketProgress::Other) == (None::<Happening>, false),
{
    encode_utf8_valid_utf8(text@);
    encode_utf8_decode_utf8(text@);
}

/// What a WebSocket is given it sends as it was meant: text as text, bytes as
/// bytes, and a farewell with its code and its reason.
pub proof fn messages_are_sent_as_they_were_meant(
    payload: Seq<u8>,
    text: Seq<char>,
    code: u16,
    reason: Seq<char>,
)
    ensures
        spoken(WsWrite::Data { is_text: true, payload }, text) == Spoken::Text(text),
        spoken(WsWrite::Data { is_text: false, payload }, text) == Spoken::Binary(payload),
        spoken(WsWrite::Close { code, reason }, text) == (Spoken::Close { code, reason }),
        payload_text(WsWrite::Data { is_text: true, payload }) == lossy_text(payload),
{
}

/// A local address is the scheme, this machine by its number, the port and the
/// path, with nothing between the port and the path.
pub proof fn local_addresses_are_on_this_machine(scheme: Seq<char>, port: u16, path: Seq<char>)
    ensures
        ({
            let url = local_url(scheme, port, path);
            let digits = decimal_digits(port as nat);
            let n = scheme.len() as int;
            &&& url.len() == n + 13 + digits.len() + path.len()
            &&& url.take(n) == scheme
            &&& url.subrange(n, n + 13) == seq![
                ':', '/', '/', '1', '2', '7', '.', '0', '.', '0', '.', '1', ':',
            ]
            &&& url.subrange(n + 13, n + 13 + digits.len()) == digits
            &&& url.skip(n + 13 + digits.len()) == path
        }),
{
    reveal_strlit("://127.0.0.1:");
    let url = local_url(scheme, port, path);
    let digits = decimal_digits(port as nat);
    let n = scheme.len() as int;
    assert("://127.0.0.1:"@.len() == 13);
    assert(url.take(n) =~= scheme);
    assert(url.subrange(n, n + 13) =~= seq![
        ':', '/', '/', '1', '2', '7', '.', '0', '.', '0', '.', '1', ':',
    ]);
    assert(url.subrange(n + 13, n + 13 + digits.len()) =~= digits);
    assert(url.skip(n + 13 + digits.len()) =~= path);
}

/// What happens on a local port is told as it is, and so is what is sent there.
pub proof fn events_are_the_happenings_they_name(
    id: String,
    text: String,
    data: Vec<u8>,
    number: u16,
    is_text: bool,
    headers: Table<HeaderValues>,
)
    ensures
        (ProxyEvent::Head { request_id: id, status: number, headers })@ == (Happening::Head {
            id: id@,
            status: number,
            headers: headers@,
        }),
        (ProxyEvent::Body { request_id: id, data })@ == (Happening::Body {
            id: id@,
            data: data@,
        }),
        (ProxyEvent::End { request_id: id })@ == (Happening::End { id: id@ }),
        (ProxyEvent::Error { request_id: id, message: text })@ == (Happening::Error {
            id: id@,
            message: text@,
        }),
        (ProxyEvent::WsOpen { request_id: id })@ == (Happening::WsOpen { id: id@ }),
        (ProxyEvent::WsClose { request_id: id, code: number, reason: text })@ == (
        Happening::WsClose { id: id@, code: number, reason: text@ }),
        (ProxyEvent::WsError { request_id: id, message: text })@ == (Happening::WsError {
            id: id@,
            message: text@,
        }),
        (ProxyEvent::WsData { request_id: id, is_text, data })@ == (Happening::WsData {
            id: id@,
            is_text,
            data: data@,
        }),
        SocketMessage::Text(text)@ == Spoken::Text(text@),
        SocketMessage::Binary(data)@ == Spoken::Binary(data@),
        (SocketMessage::Close { code: number, reason: text })@ == (Spoken::Close {
            code: number,
            reason: text@,
        }),
{
}

/// What can happen to a request at which stage: first an answer or none, then the
/// parts of the body until it is complete or broken off, and then nothing more.
pub proof fn stages_follow_each_other(
    reason: String,
    status: u16,
    lines: Vec<(String, Option<String>)>,
    data: Vec<u8>,
    stage: RequestStage,
)
    ensures
        ({
            let no = RequestProgress::Unanswered(reason);
            let yes = RequestProgress::Answered { status, lines };
            let part = RequestProgress::Chunk(data);
            let broken = RequestProgress::Broken(reason);
            let whole = RequestProgress::Complete;
            let asked = RequestStage::Asked;
            let streaming = RequestStage::Streaming;
            let over = RequestStage::Over;
            &&& possible(stage, no) <==> stage == asked
            &&& possible(stage, yes) <==> stage == asked
            &&& possible(stage, part) <==> stage == streaming
            &&& possible(stage, broken) <==> stage == streaming
            &&& possible(stage, whole) <==> stage == streaming
            &&& next_stage(asked, no) == over
            &&& next_stage(asked, yes) == streaming
            &&& next_stage(streaming, part) == streaming
            &&& next_stage(streaming, broken) == over
            &&& next_stage(streaming, whole) == over
            &&& next_stage(streaming, yes) == streaming && next_stage(streaming, no) == streaming
            &&& next_stage(asked, part) == asked && next_stage(asked, whole) == asked
            &&& next_stage(asked, broken) == asked
            &&& next_stage(over, no) == over && next_stage(over, yes) == over
            &&& next_stage(over, part) == over && next_stage(over, broken) == over
            &&& next_stage(over, whole) == over
        }),
{
}

/// A request that is answered is reported without a gap: its head, every part of
/// the body in its order, and the end, each with what was heard.
pub proof fn answered_request_is_reported_without_a_gap(
    id: Seq<char>,
    status: u16,
    lines: Vec<(String, Option<String>)>,
    parts: Seq<Vec<u8>>,
)
    ensures
        ({
            let begun = seq![RequestProgress::Answered { status, lines }] + Seq::new(
                parts.len(),
                |i: int| RequestProgress::Chunk(parts[i]),
            );
            let whole = begun.push(RequestProgress::Complete);
            let list = reported(id, whole);
            &&& list.len() == parts.len() + 2
            &&& list[0] == (Happening::Head { id, status, headers: grouped(lines@) })
            &&& forall|i: int|
                0 <= i < parts.len() ==> #[trigger] list[i + 1] == (Happening::Body {
                    id,
                    data: parts[i]@,
                })
            &&& list.last() == (Happening::End { id })
            &&& stage_after(begun) == RequestStage::Streaming
            &&& stage_after(whole) == RequestStage::Over
        }),
{
    let begun = seq![RequestProgress::Answered { status, lines }] + Seq::new(
        parts.len(),
        |i: int| RequestProgress::Chunk(parts[i]),
    );
    let whole = begun.push(RequestProgress::Complete);
    lemma_parts_are_reported(id, status, lines, parts);
    assert(whole.drop_last() =~= begun);
}

proof fn lemma_parts_are_reported(
    id: Seq<char>,
    status: u16,
    lines: Vec<(String, Option<String>)>,
    parts: Seq<Vec<u8>>,
)
    ensures
        ({
            let begun = seq![RequestProgress::Answered { status, lines }] + Seq::new(
                parts.len(),
                |i: int| RequestProgress::Chunk(parts[i]),
            );
            let list = reported(id, begun);
            &&& list.len() == parts.len() + 1
            &&& list[0] == (Happening::Head { id, status, headers: grouped(lines@) })
            &&& forall|i: int|
                0 <= i < parts.len() ==> #[trigger] list[i + 1] == (Happening::Body {
                    id,
                    data: parts[i]@,
                })
            &&& stage_after(begun) == RequestStage::Streaming
        }),
    decreases parts.len(),
{
    let begun = seq![RequestProgress::Answered { status, lines }] + Seq::new(
        parts.len(),
        |i: int| RequestProgress::Chunk(parts[i]),
    );
    if parts.len() == 0 {
        assert(begun.drop_last() =~= Seq::empty());
        assert(stage_after(begun.drop_last()) == RequestStage::Asked);
        assert(reported(id, begun.drop_last()).len() == 0);
    } else {
        let fewer = parts.drop_last();
        lemma_parts_are_reported(id, status, lines, fewer);
        assert(begun.drop_last() =~= seq![RequestProgress::Answered { status, lines }] + Seq::new(
            fewer.len(),
            |i: int| RequestProgress::Chunk(fewer[i]),
        ));
        let before = reported(id, begun.drop_last());
        let list = reported(id, begun);
        assert forall|i: int| 0 <= i < parts.len() implies #[trigger] list[i + 1] == (
        Happening::Body { id, data: parts[i]@ }) by {
            if i < fewer.len() {
                assert(before[i + 1] == (Happening::Body { id, data: fewer[i]@ }));
            }
        }
    }
}

} // verus!
