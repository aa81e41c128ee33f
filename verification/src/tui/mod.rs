//! The full-screen terminal interface.
pub mod input;
pub mod layout;
pub mod renderer;
pub mod screen;
pub mod vterm;
