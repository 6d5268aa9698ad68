//! Failure values: what went wrong, and the port or reference involved.

use vstd::prelude::*;
use vstd::string::*;

verus! {

/// The six ways in which declaring, wiring or reading can fail.
#[derive(Clone, Copy, Debug, PartialEq, Eq, Structural)]
pub enum ErrorKind {
    /// A node declares two ports of one kind under the same name.
    DuplicatePort,
    /// A rename names a port that was not declared.
    UnknownRename,
    /// Two outputs of the graph share a qualified name.
    DuplicateQualifiedOutput,
    /// An input references a qualified name that no output carries.
    UnresolvedInput,
    /// An input references an output of another element type.
    TypeMismatch,
    /// A read through a handle that names no bound input of the running node.
    UnboundInputRead,
}

/// The mathematical content of a [`GraphError`].
pub struct Fault {
    pub kind: ErrorKind,
    pub subject: Seq<char>,
}

/// A failure, carrying the name of the port or reference it is about.
#[derive(Debug, PartialEq, Eq)]
pub struct GraphError {
    pub kind: ErrorKind,
    pub subject: String,
}

impl View for GraphError {
    type V = Fault;

    open spec fn view(&self) -> Fault {
        Fault { kind: self.kind, subject: self.subject@ }
    }
}

/// The words that precede the subject in the diagnostic of each kind.
pub open spec fn message_prefix(kind: ErrorKind) -> Seq<char> {
    match kind {
        ErrorKind::DuplicatePort => "duplicate port "@,
        ErrorKind::UnknownRename => "no port to rename named "@,
        ErrorKind::DuplicateQualifiedOutput => "duplicate qualified output "@,
        ErrorKind::UnresolvedInput => "no output for input "@,
        ErrorKind::TypeMismatch => "input and output types mismatch at "@,
        ErrorKind::UnboundInputRead => "read of unbound input "@,
    }
}

impl GraphError {
    /// A failure of the given kind about `subject`.
    pub fn new(kind: ErrorKind, subject: String) -> (error: GraphError)
        ensures
            error@ == (Fault { kind, subject: subject@ }),
    {
        GraphError { kind, subject }
    }

    /// The diagnostic text: the kind's prefix followed by the subject.
    pub fn message(&self) -> (text: String)
        ensures
            text@ == message_prefix(self.kind) + self.subject@,
    {
        let mut text = match self.kind {
            ErrorKind::DuplicatePort => String::from_str("duplicate port "),
            ErrorKind::UnknownRename => String::from_str("no port to rename named "),
            ErrorKind::DuplicateQualifiedOutput => String::from_str("duplicate qualified output "),
            ErrorKind::UnresolvedInput => String::from_str("no output for input "),
            ErrorKind::TypeMismatch => String::from_str("input and output types mismatch at "),
            ErrorKind::UnboundInputRead => String::from_str("read of unbound input "),
        };
        text.append(self.subject.as_str());
        text
    }
}

} // verus!
