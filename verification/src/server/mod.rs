//! The server that owns the terminals.
pub mod connection;
pub mod state;
