//! The messages that the command line and the server exchange.
use vstd::prelude::*;

verus! {

/// What the command line asks of the server.
#[derive(Debug)]
#[allow(inconsistent_fields)]
pub enum Request {
    ServerStop,
    TerminalCreate { name: Option<String> },
    TerminalList,
    TerminalKill { id: String },
    TerminalAttach { id: String },
    MultiplexAttach { terminal_ids: Vec<String>, view_id: Option<String> },
    TerminalSync { id: String },
    TerminalUnsync { id: String },
    ViewCreate { name: Option<String>, terminal_id: String },
    ViewList,
    ViewDelete { id: String },
    ViewShow { id: String },
    ViewAddTerminal { view_id: String, terminal_id: String },
    ViewAttach { id: String },
    ViewUpdateLayout { view_id: String, layout: serde_json::Value, focused: String },
    ViewRemoveTerminal { view_id: String, terminal_id: String },
}

/// What the server answers.
#[derive(Debug)]
pub enum Response {
    Done,
    Error { message: String },
    TerminalCreated { id: String },
    TerminalList { terminals: Vec<TerminalInfo> },
    MultiplexAttached { terminal_ids: Vec<String> },
    SyncStatus { synced: bool },
    ViewCreated { id: String },
    ViewList { views: Vec<ViewInfo> },
    ViewShow { view: ViewInfo },
    ViewAttach {
        terminal_ids: Vec<String>,
        layout: Option<serde_json::Value>,
        focused: Option<String>,
    },
}

/// A terminal in a list.
#[derive(Debug, Clone)]
pub struct TerminalInfo {
    pub id: String,
    pub name: Option<String>,
    pub created_at: String,
}

/// A view in a list.
#[derive(Debug, Clone)]
pub struct ViewInfo {
    pub id: String,
    pub name: Option<String>,
    pub terminal_ids: Vec<String>,
    pub created_at: String,
}

/// A port in a list of exposed ports.
#[derive(Debug, Clone)]
pub struct ProxyPortInfo {
    pub port: u16,
    pub public: bool,
    pub url: Option<String>,
}

/// What passes between an attached window and its terminal.
#[derive(Debug)]
pub enum StreamMessage {
    Data(Vec<u8>),
    Resize { cols: u16, rows: u16 },
    Detach,
}

/// What passes between a window and several terminals.
#[derive(Debug, PartialEq)]
pub enum BinaryFrame {
    Data(Vec<u8>),
    Resize { cols: u16, rows: u16 },
    Detach,
    Control(Vec<u8>),
}

/// What a window with several terminals asks of the server.
#[derive(Debug)]
pub enum MuxRequest {
    CreateTerminal { name: Option<String> },
    AddTerminal { id: String },
    RemoveTerminal { id: String },
    KillTerminal { id: String },
    UpdateLayout { view_id: String, layout: serde_json::Value, focused: String },
}

/// What the server answers to a window with several terminals.
#[derive(Debug)]
pub enum MuxResponse {
    Done,
    TerminalCreated { id: String },
    Error { message: String },
}

/// A frame as contracts speak of it.
pub enum Frame {
    Data(Seq<u8>),
    Resize { cols: u16, rows: u16 },
    Detach,
    Control(Seq<u8>),
}

impl View for BinaryFrame {
    type V = Frame;

    open spec fn view(&self) -> Frame {
        match *self {
            BinaryFrame::Data(bytes) => Frame::Data(bytes@),
            BinaryFrame::Resize { cols, rows } => Frame::Resize { cols, rows },
            BinaryFrame::Detach => Frame::Detach,
            BinaryFrame::Control(bytes) => Frame::Control(bytes@),
        }
    }
}

/// A frame is told as it is: its bytes as they are, and its columns and rows each
/// as what they are.
pub proof fn frames_are_what_they_hold(bytes: Vec<u8>, cols: u16, rows: u16)
    ensures
        BinaryFrame::Data(bytes)@ == Frame::Data(bytes@),
        BinaryFrame::Control(bytes)@ == Frame::Control(bytes@),
        (BinaryFrame::Resize { cols, rows })@ == (Frame::Resize { cols, rows }),
        BinaryFrame::Detach@ == Frame::Detach,
{
}

} // verus!
