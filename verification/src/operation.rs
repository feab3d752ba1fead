//! The outside work a session asks of its host, one operation at a time.

use vstd::prelude::*;
use crate::command::{Invocation, InvocationView};
use crate::geometry::Geometry;

verus! {

/// One piece of work on the operating system's side. The host performs it
/// and reports whether it succeeded.
#[derive(Debug, PartialEq, Eq)]
pub enum Operation {
    /// Allocate a pseudo-terminal pair of the given geometry.
    OpenPty(Geometry),
    /// Start the process on the subordinate side of the pair.
    SpawnCommand(Invocation),
    /// Obtain the input handle of the controlling side.
    TakeWriter,
    /// Obtain a read handle of the controlling side for the forwarding task.
    CloneReader,
    /// Acquire the guard of the session's input handle.
    LockWriter,
    /// Write all of the bytes to the input handle.
    Write(Vec<u8>),
    /// Flush the input handle.
    Flush,
    /// Acquire the guard of the session's control handle.
    LockMaster,
    /// Tell the pseudo-terminal its new geometry.
    Resize(Geometry),
}

/// The mathematical content of an [`Operation`].
pub enum OperationView {
    OpenPty(Geometry),
    SpawnCommand(InvocationView),
    TakeWriter,
    CloneReader,
    LockWriter,
    Write(Seq<u8>),
    Flush,
    LockMaster,
    Resize(Geometry),
}

impl View for Operation {
    type V = OperationView;

    open spec fn view(&self) -> OperationView {
        match self {
            Operation::OpenPty(size) => OperationView::OpenPty(*size),
            Operation::SpawnCommand(invocation) => OperationView::SpawnCommand(invocation@),
            Operation::TakeWriter => OperationView::TakeWriter,
            Operation::CloneReader => OperationView::CloneReader,
            Operation::LockWriter => OperationView::LockWriter,
            Operation::Write(bytes) => OperationView::Write(bytes@),
            Operation::Flush => OperationView::Flush,
            Operation::LockMaster => OperationView::LockMaster,
            Operation::Resize(size) => OperationView::Resize(*size),
        }
    }
}

impl OperationView {
    /// Whether the operation belongs to the creation of a session, so that
    /// its failure is a failure to spawn.
    pub open spec fn is_creation(self) -> bool {
        self is OpenPty || self is SpawnCommand || self is TakeWriter || self is CloneReader
    }

    /// The words that precede the host's own description when the operation
    /// fails. A guard that cannot be acquired is described by the host alone.
    pub open spec fn failure_prefix(self) -> Seq<char> {
        match self {
            OperationView::OpenPty(_) => "Failed to open PTY: "@,
            OperationView::SpawnCommand(_) => "Failed to spawn command: "@,
            OperationView::TakeWriter => "Failed to get writer: "@,
            OperationView::CloneReader => "Failed to get reader: "@,
            OperationView::LockWriter => ""@,
            OperationView::Write(_) => "Failed to write: "@,
            OperationView::Flush => "Failed to flush: "@,
            OperationView::LockMaster => ""@,
            OperationView::Resize(_) => "Failed to resize: "@,
        }
    }
}

impl Operation {
    /// Whether the operation belongs to the creation of a session.
    pub fn is_creation(&self) -> (b: bool)
        ensures
            b == self@.is_creation(),
    {
        match self {
            Operation::OpenPty(_) => true,
            Operation::SpawnCommand(_) => true,
            Operation::TakeWriter => true,
            Operation::CloneReader => true,
            _ => false,
        }
    }

    /// The words that precede the host's description of a failure.
    pub fn failure_prefix(&self) -> (prefix: &'static str)
        ensures
            prefix@ == self@.failure_prefix(),
    {
        match self {
            Operation::OpenPty(_) => "Failed to open PTY: ",
            Operation::SpawnCommand(_) => "Failed to spawn command: ",
            Operation::TakeWriter => "Failed to get writer: ",
            Operation::CloneReader => "Failed to get reader: ",
            Operation::LockWriter => "",
            Operation::Write(_) => "Failed to write: ",
            Operation::Flush => "Failed to flush: ",
            Operation::LockMaster => "",
            Operation::Resize(_) => "Failed to resize: ",
        }
    }
}

} // verus!
