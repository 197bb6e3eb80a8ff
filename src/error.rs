//! Errors raised when a board is built from tile values.
use vstd::prelude::*;

verus! {

/// What was wrong with the input.
#[derive(Debug, PartialEq, Eq, Structural, Copy, Clone)]
pub enum ErrorKind {
    /// The board representation is invalid: it does not hold exactly 16 tiles
    InvalidBoardRepr,
    /// The square value is invalid: neither 0 nor a power of two from 2 to 32768
    InvalidSquareValue(u16),
}

/// An error of this crate: its kind and a description.
#[derive(Debug)]
pub struct Error {
    kind: ErrorKind,
    message: String,
}

impl Error {
    /// The kind of this error.
    pub closed spec fn spec_kind(&self) -> ErrorKind {
        self.kind
    }

    /// The description of this error.
    pub closed spec fn spec_message(&self) -> Seq<char> {
        self.message@
    }

    /// Constructs a new `Error` of a particular `ErrorKind`.
    pub fn new(kind: ErrorKind, message: String) -> (r: Error)
        ensures
            r.spec_kind() == kind,
            r.spec_message() == message@,
    {
        Error { kind, message }
    }

    /// The kind of this `Error`.
    pub fn kind(&self) -> (r: ErrorKind)
        ensures
            r == self.spec_kind(),
    {
        self.kind
    }

    /// The description of this `Error`.
    pub fn message(&self) -> (r: &str)
        ensures
            r@ == self.spec_message(),
    {
        self.message.as_str()
    }
}

} // verus!
