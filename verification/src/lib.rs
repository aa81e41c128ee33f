//! The logic of a terminal multiplexer: pane layout, key bindings, screen
//! drawing, the local framing protocol, the cloud link and the command line.
//!
//! Nothing here performs I/O. Each function takes plain values and returns
//! plain values or a list of actions for its caller to carry out.
pub mod cli;
pub mod cloud;
pub mod config;
pub mod credential;
pub mod emulator;
pub mod error;
pub mod ipc;
pub mod json;
pub mod server;
pub mod stream;
pub mod table;
pub mod terminal;
pub mod text;
pub mod tui;
pub mod wire;

