//! Request-level error values: an error kind plus a human-readable message.

use vstd::prelude::*;

verus! {

/// The four kinds of user-visible failure a queue operation can report.
#[derive(Clone, Copy, PartialEq, Eq, Structural, Debug)]
pub enum ErrorKind {
    /// Invalid input: unknown format, malformed request, tool unavailable.
    BadRequest,
    /// The named queue item does not exist.
    NotFound,
    /// An insert collided with an id already in the queue.
    Conflict,
    /// Unexpected internal failure (I/O, serialization).
    Internal,
}

/// A user-visible error: a kind (mapped to a transport status by the shell)
/// and a message.
#[derive(Clone, Debug)]
pub struct AppError {
    pub kind: ErrorKind,
    pub message: String,
}

impl AppError {
    pub fn bad_request(message: String) -> (r: AppError)
        ensures
            r.kind == ErrorKind::BadRequest,
            r.message == message,
    {
        AppError { kind: ErrorKind::BadRequest, message }
    }

    pub fn not_found(message: String) -> (r: AppError)
        ensures
            r.kind == ErrorKind::NotFound,
            r.message == message,
    {
        AppError { kind: ErrorKind::NotFound, message }
    }

    pub fn conflict(message: String) -> (r: AppError)
        ensures
            r.kind == ErrorKind::Conflict,
            r.message == message,
    {
        AppError { kind: ErrorKind::Conflict, message }
    }

    pub fn internal(message: String) -> (r: AppError)
        ensures
            r.kind == ErrorKind::Internal,
            r.message == message,
    {
        AppError { kind: ErrorKind::Internal, message }
    }
}

} // verus!
