//! What can go wrong.
use vstd::prelude::*;

verus! {

/// A failure, with its description.
#[derive(Debug)]
pub enum KexError {
    /// The two sides of a socket do not understand each other.
    Ipc(String),
    /// A request cannot be served.
    Server(String),
    /// Reading or writing failed.
    Io(String),
    /// A message is no valid JSON.
    Json(String),
}

/// A failure as contracts speak of it.
pub enum Failure {
    Ipc(Seq<char>),
    Server(Seq<char>),
    Io(Seq<char>),
    Json(Seq<char>),
}

impl View for KexError {
    type V = Failure;

    open spec fn view(&self) -> Failure {
        match *self {
            KexError::Ipc(text) => Failure::Ipc(text@),
            KexError::Server(text) => Failure::Server(text@),
            KexError::Io(text) => Failure::Io(text@),
            KexError::Json(text) => Failure::Json(text@),
        }
    }
}

/// The description of a failure.
pub open spec fn description(failure: Failure) -> Seq<char> {
    match failure {
        Failure::Ipc(text) => text,
        Failure::Server(text) => text,
        Failure::Io(text) => text,
        Failure::Json(text) => text,
    }
}

impl KexError {
    /// The description.
    pub fn message(&self) -> (text: &str)
        ensures
            text@ == description(self@),
    {
        match self {
            KexError::Ipc(text) => text.as_str(),
            KexError::Server(text) => text.as_str(),
            KexError::Io(text) => text.as_str(),
            KexError::Json(text) => text.as_str(),
        }
    }
}

/// A failure is described by the text that it was made with, whatever its kind.
pub proof fn failures_keep_their_text(text: Seq<char>)
    ensures
        description(Failure::Ipc(text)) == text,
        description(Failure::Server(text)) == text,
        description(Failure::Io(text)) == text,
        description(Failure::Json(text)) == text,
{
}

} // verus!
