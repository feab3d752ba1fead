//! The failures a caller can meet, and their descriptions.

use vstd::prelude::*;
use vstd::string::StringExecFns;
use crate::operation::{Operation, OperationView};

verus! {

/// Why an operation on the registry or on a session did not succeed. Every
/// failure ends the operation that met it: nothing is tried again.
#[derive(Debug, PartialEq, Eq)]
pub enum SessionError {
    /// No live session has the identifier: it was never created, or it was
    /// closed.
    NotFound,
    /// The pseudo-terminal could not be allocated or the process could not
    /// be started. Holds the description.
    Spawn(String),
    /// A handle of the operating system refused a write or a resize. Holds
    /// the description.
    Io(String),
}

/// The mathematical content of a [`SessionError`].
pub enum SessionErrorView {
    NotFound,
    Spawn(Seq<char>),
    Io(Seq<char>),
}

impl View for SessionError {
    type V = SessionErrorView;

    open spec fn view(&self) -> SessionErrorView {
        match self {
            SessionError::NotFound => SessionErrorView::NotFound,
            SessionError::Spawn(text) => SessionErrorView::Spawn(text@),
            SessionError::Io(text) => SessionErrorView::Io(text@),
        }
    }
}

impl SessionErrorView {
    /// The failure of `operation`, which the host describes as `detail`.
    pub open spec fn failure(operation: OperationView, detail: Seq<char>) -> SessionErrorView {
        if operation.is_creation() {
            SessionErrorView::Spawn(operation.failure_prefix() + detail)
        } else {
            SessionErrorView::Io(operation.failure_prefix() + detail)
        }
    }

    /// The description shown to the caller.
    pub open spec fn message(self) -> Seq<char> {
        match self {
            SessionErrorView::NotFound => "Session not found"@,
            SessionErrorView::Spawn(text) => text,
            SessionErrorView::Io(text) => text,
        }
    }
}

impl SessionError {
    /// The error for `operation` having failed, with the host's description
    /// of what went wrong.
    pub fn failure(operation: &Operation, detail: &str) -> (error: SessionError)
        ensures
            error@ == SessionErrorView::failure(operation@, detail@),
    {
        let mut text = String::from_str(operation.failure_prefix());
        text.append(detail);
        if operation.is_creation() {
            SessionError::Spawn(text)
        } else {
            SessionError::Io(text)
        }
    }

    /// The description shown to the caller.
    pub fn message(&self) -> (text: String)
        ensures
            text@ == self@.message(),
    {
        match self {
            SessionError::NotFound => String::from_str("Session not found"),
            SessionError::Spawn(text) => text.clone(),
            SessionError::Io(text) => text.clone(),
        }
    }
}

} // verus!
