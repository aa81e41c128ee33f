//! What a connection to the server leads to.
use vstd::prelude::*;

use crate::ipc::message::{Request, Response, StreamMessage, TerminalInfo};
use crate::text::concat2;

verus! {

/// What a request has the server do.
#[derive(Debug)]
pub enum ServerStep {
    /// Stop the server.
    Stop,
    /// Create a terminal.
    Create { name: Option<String> },
    /// List the terminals.
    List,
    /// Kill a terminal.
    Kill { id: String },
    /// Connect the client with a terminal.
    Attach { id: String },
    /// Nothing: the request is not one that is served here.
    Unserved,
}

/// Decides what a request has the server do.
pub fn plan_request(req: Request) -> (step: ServerStep)
    ensures
        match req {
            Request::ServerStop => step is Stop,
            Request::TerminalCreate { name } => step == (ServerStep::Create { name }),
            Request::TerminalList => step is List,
            Request::TerminalKill { id } => step == (ServerStep::Kill { id }),
            Request::TerminalAttach { id } => step == (ServerStep::Attach { id }),
            _ => step is Unserved,
        },
{
    match req {
        Request::ServerStop => ServerStep::Stop,
        Request::TerminalCreate { name } => ServerStep::Create { name },
        Request::TerminalList => ServerStep::List,
        Request::TerminalKill { id } => ServerStep::Kill { id },
        Request::TerminalAttach { id } => ServerStep::Attach { id },
        _ => ServerStep::Unserved,
    }
}

/// How what the server did has come out.
pub enum ServerOutcome {
    /// It is stopping.
    Stopping,
    /// A terminal was created, or not, for a reason.
    Created(Result<String, String>),
    /// These are the terminals.
    Listed(Vec<TerminalInfo>),
    /// A terminal was killed, or not, for a reason.
    Killed(Result<(), String>),
    /// The client is connected with a terminal.
    Attached,
    /// There is no terminal with this identifier.
    NoTerminal(String),
}

/// Decides what the client is told.
pub fn respond(outcome: ServerOutcome) -> (response: Response)
    ensures
        match outcome {
            ServerOutcome::Stopping => response is Done,
            ServerOutcome::Created(Ok(id)) => response == (Response::TerminalCreated { id }),
            ServerOutcome::Created(Err(message)) => response == (Response::Error { message }),
            ServerOutcome::Listed(terminals) => response == (Response::TerminalList { terminals }),
            ServerOutcome::Killed(Ok(_)) => response is Done,
            ServerOutcome::Killed(Err(message)) => response == (Response::Error { message }),
            ServerOutcome::Attached => response is Done,
            ServerOutcome::NoTerminal(id) => response matches Response::Error { message }
                && message@ == "terminal not found: "@ + id@,
        },
{
    match outcome {
        ServerOutcome::Stopping => Response::Done,
        ServerOutcome::Created(result) => match result {
            Ok(id) => Response::TerminalCreated { id },
            Err(message) => Response::Error { message },
        },
        ServerOutcome::Listed(terminals) => Response::TerminalList { terminals },
        ServerOutcome::Killed(result) => match result {
            Ok(_) => Response::Done,
            Err(message) => Response::Error { message },
        },
        ServerOutcome::Attached => Response::Done,
        ServerOutcome::NoTerminal(id) => Response::Error {
            message: concat2("terminal not found: ", id.as_str()),
        },
    }
}

/// What a message from an attached client leads to.
#[derive(Debug)]
pub enum AttachStep {
    /// Hand bytes to the program in the terminal.
    Write(Vec<u8>),
    /// Tell the program its size.
    Resize { cols: u16, rows: u16 },
    /// End the connection.
    Stop,
}

/// Decides what a message from an attached client leads to. Where no message
/// could be read, the connection ends.
pub fn attach_input(msg: Option<StreamMessage>) -> (step: AttachStep)
    ensures
        match msg {
            Some(StreamMessage::Data(data)) => step == AttachStep::Write(data),
            Some(StreamMessage::Resize { cols, rows }) => step == (AttachStep::Resize {
                cols,
                rows,
            }),
            Some(StreamMessage::Detach) => step is Stop,
            None => step is Stop,
        },
{
    match msg {
        Some(message) => match message {
            StreamMessage::Data(data) => AttachStep::Write(data),
            StreamMessage::Resize { cols, rows } => AttachStep::Resize { cols, rows },
            StreamMessage::Detach => AttachStep::Stop,
        },
        None => AttachStep::Stop,
    }
}

} // verus!
