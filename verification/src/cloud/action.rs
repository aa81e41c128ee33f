//! What the link to the cloud has its surroundings do.
use vstd::prelude::*;

use super::message::is_message;
use super::proxy::{Task, Work, WsWrite, WsWriteMsg};
use crate::json::{pair_keys, pair_map};
use crate::text::text_option;

verus! {

/// One thing to do.
#[derive(Debug)]
pub enum CloudAction {
    /// Send a text message over the connection.
    SendText(String),
    /// Send a binary message over the connection.
    SendBinary(Vec<u8>),
    /// Close the connection in good order.
    Close,
    /// Hand bytes to the program in a terminal.
    WritePty { id: String, data: Vec<u8> },
    /// Tell the program in a terminal its size.
    ResizePty { id: String, cols: u16, rows: u16 },
    /// Stop reading what the program in a terminal writes.
    StopReader(String),
    /// Stop some work in the background.
    Stop(Task),
    /// Start a request to a local port.
    StartRequest {
        request_id: String,
        method: String,
        port: u16,
        path: String,
        headers: Vec<(String, String)>,
    },
    /// Open a WebSocket on a local port.
    StartSocket { request_id: String, port: u16, path: String, headers: Vec<(String, String)> },
    /// Hand a message to a WebSocket. `wait` says whether to wait for a place in
    /// its queue.
    ToSocket { request_id: String, message: WsWriteMsg, wait: bool },
    /// Answer the one who asked for a port to be exposed.
    ReplyExpose { port: u16, result: Result<String, String> },
    /// Create a terminal and share it.
    CreateTerminal { name: Option<String> },
    /// Kill a terminal. `shared` says whether it has to be taken back first.
    KillTerminal { id: String, shared: bool },
}

/// One thing to do, as contracts speak of it.
pub enum Deed {
    SendText(Seq<char>),
    SendBinary(Seq<u8>),
    Close,
    WritePty { id: Seq<char>, data: Seq<u8> },
    ResizePty { id: Seq<char>, cols: u16, rows: u16 },
    StopReader(Seq<char>),
    Stop(Work),
    StartRequest {
        id: Seq<char>,
        method: Seq<char>,
        port: u16,
        path: Seq<char>,
        headers: Map<Seq<char>, Seq<char>>,
    },
    StartSocket {
        id: Seq<char>,
        port: u16,
        path: Seq<char>,
        headers: Map<Seq<char>, Seq<char>>,
    },
    ToSocket { id: Seq<char>, message: WsWrite, wait: bool },
    ReplyExpose { port: u16, result: Result<Seq<char>, Seq<char>> },
    CreateTerminal { name: Option<Seq<char>> },
    KillTerminal { id: Seq<char>, shared: bool },
}

/// The texts of a result.
pub open spec fn text_result(r: Result<String, String>) -> Result<Seq<char>, Seq<char>> {
    match r {
        Ok(text) => Ok(text@),
        Err(text) => Err(text@),
    }
}

impl View for CloudAction {
    type V = Deed;

    open spec fn view(&self) -> Deed {
        match *self {
            CloudAction::SendText(text) => Deed::SendText(text@),
            CloudAction::SendBinary(data) => Deed::SendBinary(data@),
            CloudAction::Close => Deed::Close,
            CloudAction::WritePty { id, data } => Deed::WritePty { id: id@, data: data@ },
            CloudAction::ResizePty { id, cols, rows } => Deed::ResizePty { id: id@, cols, rows },
            CloudAction::StopReader(id) => Deed::StopReader(id@),
            CloudAction::Stop(task) => Deed::Stop(task@),
            CloudAction::StartRequest { request_id, method, port, path, headers } =>
                Deed::StartRequest {
                id: request_id@,
                method: method@,
                port,
                path: path@,
                headers: pair_map(headers@),
            },
            CloudAction::StartSocket { request_id, port, path, headers } => Deed::StartSocket {
                id: request_id@,
                port,
                path: path@,
                headers: pair_map(headers@),
            },
            CloudAction::ToSocket { request_id, message, wait } => Deed::ToSocket {
                id: request_id@,
                message: message@,
                wait,
            },
            CloudAction::ReplyExpose { port, result } => Deed::ReplyExpose {
                port,
                result: text_result(result),
            },
            CloudAction::CreateTerminal { name } => Deed::CreateTerminal {
                name: text_option(name),
            },
            CloudAction::KillTerminal { id, shared } => Deed::KillTerminal { id: id@, shared },
        }
    }
}

/// The deeds that a list of actions stands for.
pub open spec fn deeds(actions: Seq<CloudAction>) -> Seq<Deed> {
    Seq::new(actions.len(), |i: int| actions[i]@)
}

/// Whether the header lines of an action name each header once, and what it
/// sends as text is a message that can be read again.
pub open spec fn well_made(action: CloudAction) -> bool {
    match action {
        CloudAction::SendText(text) => is_message(text@),
        CloudAction::StartRequest { headers, .. } => pair_keys(headers@).no_duplicates(),
        CloudAction::StartSocket { headers, .. } => pair_keys(headers@).no_duplicates(),
        _ => true,
    }
}

/// Whether every action of a list is well made.
pub open spec fn all_well_made(actions: Seq<CloudAction>) -> bool {
    forall|i: int| 0 <= i < actions.len() ==> well_made(#[trigger] actions[i])
}

/// The deeds that stop some works.
pub open spec fn stops(works: Seq<Work>) -> Seq<Deed> {
    Seq::new(works.len(), |i: int| Deed::Stop(works[i]))
}

/// Nothing to do.
pub(crate) fn nothing() -> (actions: Vec<CloudAction>)
    ensures
        deeds(actions@) == Seq::<Deed>::empty(),
        all_well_made(actions@),
{
    let actions: Vec<CloudAction> = Vec::new();
    assert(deeds(actions@) =~= Seq::empty());
    actions
}

/// One thing to do.
pub(crate) fn just(action: CloudAction) -> (actions: Vec<CloudAction>)
    ensures
        deeds(actions@) == seq![action@],
        all_well_made(actions@) == well_made(action),
{
    let actions = vec![action];
    assert(actions@[0] == action);
    assert(deeds(actions@) =~= seq![action@]);
    actions
}

/// One list of actions and then another.
pub(crate) fn in_turn(first: Vec<CloudAction>, second: Vec<CloudAction>) -> (actions: Vec<
    CloudAction,
>)
    ensures
        deeds(actions@) == deeds(first@) + deeds(second@),
        all_well_made(first@) && all_well_made(second@) ==> all_well_made(actions@),
{
    let ghost a = first@;
    let ghost b = second@;
    let mut first = first;
    let mut second = second;
    first.append(&mut second);
    assert(deeds(first@) =~= deeds(a) + deeds(b));
    first
}

/// The actions that stop some tasks.
pub(crate) fn stop_all(tasks: Vec<Task>) -> (actions: Vec<CloudAction>)
    ensures
        deeds(actions@) == stops(super::proxy::works(tasks@)),
        all_well_made(actions@),
{
    let ghost all = tasks@;
    let mut actions: Vec<CloudAction> = Vec::new();
    let mut tasks = tasks;
    let ghost mut done: nat = 0;
    while tasks.len() > 0
        invariant
            done + tasks@.len() == all.len(),
            tasks@ == all.skip(done as int),
            deeds(actions@) == stops(super::proxy::works(all.take(done as int))),
            all_well_made(actions@),
        decreases tasks@.len(),
    {
        let ghost before = deeds(actions@);
        let task = tasks.remove(0);
        actions.push(CloudAction::Stop(task));
        proof {
            assert(task == all[done as int]);
            done = done + 1;
            assert(deeds(actions@) =~= before.push(Deed::Stop(task@)));
            assert(deeds(actions@) =~= stops(super::proxy::works(all.take(done as int))));
            assert(tasks@ =~= all.skip(done as int));
        }
    }
    assert(all.take(done as int) =~= all);
    actions
}

/// What is to be done is told as it is: every part of an action stands in the
/// deed that it is.
pub proof fn actions_are_the_deeds_they_name(
    id: String,
    text: String,
    path: String,
    data: Vec<u8>,
    cols: u16,
    rows: u16,
    task: Task,
    headers: Vec<(String, String)>,
    message: WsWriteMsg,
    flag: bool,
)
    ensures
        CloudAction::SendText(text)@ == Deed::SendText(text@),
        CloudAction::SendBinary(data)@ == Deed::SendBinary(data@),
        CloudAction::Close@ == Deed::Close,
        (CloudAction::WritePty { id, data })@ == (Deed::WritePty { id: id@, data: data@ }),
        (CloudAction::ResizePty { id, cols, rows })@ == (Deed::ResizePty { id: id@, cols, rows }),
        CloudAction::StopReader(id)@ == Deed::StopReader(id@),
        CloudAction::Stop(task)@ == Deed::Stop(task@),
        (CloudAction::StartRequest { request_id: id, method: text, port: cols, path, headers })@
            == (Deed::StartRequest {
            id: id@,
            method: text@,
            port: cols,
            path: path@,
            headers: pair_map(headers@),
        }),
        (CloudAction::StartSocket { request_id: id, port: cols, path, headers })@ == (
        Deed::StartSocket { id: id@, port: cols, path: path@, headers: pair_map(headers@) }),
        (CloudAction::ToSocket { request_id: id, message, wait: flag })@ == (Deed::ToSocket {
            id: id@,
            message: message@,
            wait: flag,
        }),
        (CloudAction::ReplyExpose { port: cols, result: Ok(text) })@ == (Deed::ReplyExpose {
            port: cols,
            result: Ok(text@),
        }),
        (CloudAction::ReplyExpose { port: cols, result: Err(text) })@ == (Deed::ReplyExpose {
            port: cols,
            result: Err(text@),
        }),
        (CloudAction::CreateTerminal { name: Some(text) })@ == (Deed::CreateTerminal {
            name: Some(text@),
        }),
        (CloudAction::CreateTerminal { name: None })@ == (Deed::CreateTerminal { name: None }),
        (CloudAction::KillTerminal { id, shared: flag })@ == (Deed::KillTerminal {
            id: id@,
            shared: flag,
        }),
        Task::Request(id)@ == Work::Request(id@),
        Task::Socket(id)@ == Work::Socket(id@),
        (WsWriteMsg::Data { is_text: flag, payload: data })@ == (WsWrite::Data {
            is_text: flag,
            payload: data@,
        }),
        (WsWriteMsg::Close { code: cols, reason: text })@ == (WsWrite::Close {
            code: cols,
            reason: text@,
        }),
{
}

} // verus!
