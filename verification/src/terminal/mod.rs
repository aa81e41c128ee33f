//! Using a terminal from a window.
pub mod attach;
