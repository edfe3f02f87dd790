//! Errors reported when a file set cannot be analyzed.

use vstd::prelude::*;

verus! {

/// The kind of error that occurred.
#[derive(Clone, Copy, Debug, PartialEq, Eq, Structural)]
pub enum ErrorKind {
    /// No repository or file set could be opened.
    NoRepository,
}

impl ErrorKind {
    /// A short description of this kind of error.
    pub fn message(&self) -> (r: &'static str)
        ensures
            *self == ErrorKind::NoRepository ==> r@ == "no repository found"@,
    {
        match self {
            ErrorKind::NoRepository => "no repository found",
        }
    }
}

/// An error, with the text of its underlying cause when one is known.
#[derive(Debug)]
pub struct Error {
    pub kind: ErrorKind,
    pub source: Option<String>,
}

impl Error {
    /// Wraps a kind without an underlying cause.
    pub fn new(kind: ErrorKind) -> (r: Self)
        ensures
            r.kind == kind,
            r.source is None,
    {
        Error { kind, source: Option::None }
    }

    /// Wraps a kind with the text of its underlying cause.
    pub fn with_source(kind: ErrorKind, source: String) -> (r: Self)
        ensures
            r.kind == kind,
            r.source == Option::Some(source),
    {
        Error { kind, source: Option::Some(source) }
    }

    /// The kind of error that occurred.
    pub fn kind(&self) -> (r: &ErrorKind)
        ensures
            *r == self.kind,
    {
        &self.kind
    }
}

} // verus!
