//! Errors of input and output.

use vstd::prelude::*;

verus! {

/// What sort of failure an error stands for.
///
/// These are the kinds that this library tells apart or reports; every other
/// kind counts as [`ErrorKind::Other`].
#[derive(Debug, Copy, Clone, PartialEq, Eq, Structural)]
pub enum ErrorKind {
    /// The operation cannot be completed without blocking.
    WouldBlock,
    /// What was looked for does not exist.
    NotFound,
    /// The data is malformed.
    InvalidData,
    /// Anything else.
    Other,
}

/// An input/output error: a code of the operating system, or anything else,
/// carried as a value of type `E`.
#[derive(Debug, PartialEq, Eq)]
pub enum IoError<E> {
    /// An error that the operating system reported by its number.
    Os { code: i32, kind: ErrorKind },
    /// Any other error.
    Custom { kind: ErrorKind, error: E },
}

impl<E> IoError<E> {
    /// The kind that this error counts as.
    pub open spec fn spec_kind(self) -> ErrorKind {
        match self {
            IoError::Os { code: _, kind } => kind,
            IoError::Custom { kind, error: _ } => kind,
        }
    }

    /// The number under which the operating system reported this error.
    pub open spec fn spec_raw_os_error(self) -> Option<i32> {
        match self {
            IoError::Os { code, kind: _ } => Some(code),
            IoError::Custom { kind: _, error: _ } => None,
        }
    }

    /// Returns the kind that this error counts as.
    pub fn kind(&self) -> (kind: ErrorKind)
        ensures
            kind == self.spec_kind(),
    {
        match self {
            IoError::Os { code: _, kind } => *kind,
            IoError::Custom { kind, error: _ } => *kind,
        }
    }

    /// Returns the number under which the operating system reported this
    /// error, if it did.
    pub fn raw_os_error(&self) -> (code: Option<i32>)
        ensures
            code == self.spec_raw_os_error(),
    {
        match self {
            IoError::Os { code, kind: _ } => Some(*code),
            IoError::Custom { kind: _, error: _ } => None,
        }
    }
}

} // verus!
