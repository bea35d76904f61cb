//! Failures of operations outside the library, as plain values.

use vstd::prelude::*;

verus! {

/// What kind of failure an input or output operation reported.
#[derive(Clone, Copy, Debug, PartialEq, Eq, Structural)]
pub enum IoErrorKind {
    /// The operation was interrupted by a signal.
    Interrupted,
    /// A non-blocking operation had nothing to do.
    WouldBlock,
    /// The file does not exist.
    NotFound,
    /// Any other failure.
    Other,
}

/// A failed input or output operation.
#[derive(Debug, PartialEq, Eq)]
pub struct IoError {
    pub kind: IoErrorKind,
    pub message: String,
}

impl IoError {
    /// What the failure says of itself.
    pub open spec fn text(self) -> Seq<char> {
        self.message@
    }

    /// A failure of the given kind.
    pub fn new(kind: IoErrorKind, message: String) -> (r: Self)
        ensures
            r.kind == kind,
            r.message == message,
    {
        IoError { kind, message }
    }

    /// A failure of no particular kind.
    pub fn other(message: &str) -> (r: Self)
        ensures
            r.kind == IoErrorKind::Other,
            r.message@ == message@,
    {
        IoError { kind: IoErrorKind::Other, message: message.to_owned() }
    }

    /// Whether the operation is to be tried again.
    pub open spec fn retries(self) -> bool {
        self.kind == IoErrorKind::Interrupted || self.kind == IoErrorKind::WouldBlock
    }

    /// Whether the operation is to be tried again.
    pub fn is_retry(&self) -> (r: bool)
        ensures
            r == self.retries(),
    {
        self.kind == IoErrorKind::Interrupted || self.kind == IoErrorKind::WouldBlock
    }

    /// Describes the failure.
    pub fn to_string(&self) -> (r: String)
        ensures
            r@ == self.text(),
    {
        self.message.clone()
    }
}

} // verus!
