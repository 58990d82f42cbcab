//! Errors returned by the request handlers' logic.
use vstd::prelude::*;

verus! {

/// The class of an error: it decides the HTTP status that a handler answers.
#[derive(Clone, Copy, Debug, PartialEq, Eq, Structural)]
pub enum ErrorKind {
    Validation,
    Internal,
    NotFound,
}

/// An error of the service, with its message.
#[derive(Debug)]
pub enum AppError {
    /// The request was malformed or not allowed.
    Validation(String),
    /// Something failed inside the service.
    Internal(String),
    /// The requested record does not exist.
    NotFound(String),
}

impl AppError {
    pub open spec fn kind(&self) -> ErrorKind {
        match self {
            AppError::Validation(_) => ErrorKind::Validation,
            AppError::Internal(_) => ErrorKind::Internal,
            AppError::NotFound(_) => ErrorKind::NotFound,
        }
    }

    pub open spec fn message(&self) -> Seq<char> {
        match self {
            AppError::Validation(m) => m@,
            AppError::Internal(m) => m@,
            AppError::NotFound(m) => m@,
        }
    }

    /// The error as its class and message.
    pub open spec fn spec_parts(&self) -> (ErrorKind, Seq<char>) {
        (self.kind(), self.message())
    }
}

/// A validation error with message `m`, as a class and a message.
pub open spec fn invalid(m: Seq<char>) -> (ErrorKind, Seq<char>) {
    (ErrorKind::Validation, m)
}

} // verus!
