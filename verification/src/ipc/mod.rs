//! The protocol between the command line and the server.
pub mod codec;
pub mod message;
