//! The error that the service answers a failed request or start-up with.

use vstd::prelude::*;

verus! {

/// Which HTTP status an error is answered with.
#[derive(Debug, Clone, Copy, PartialEq, Eq, Structural)]
pub enum ErrorKind {
    /// The request (or configuration) was at fault: status 400.
    BadRequest,
    /// The service itself failed: status 500.
    Internal,
}

/// An error with the status it is answered with and a human-readable message.
#[derive(Debug)]
pub struct AppError {
    pub kind: ErrorKind,
    pub message: String,
}

impl View for AppError {
    type V = (ErrorKind, Seq<char>);

    open spec fn view(&self) -> (ErrorKind, Seq<char>) {
        (self.kind, self.message@)
    }
}

/// The numeric HTTP status of each kind.
pub open spec fn status_of(kind: ErrorKind) -> u16 {
    match kind {
        ErrorKind::BadRequest => 400,
        ErrorKind::Internal => 500,
    }
}

impl AppError {
    /// An error caused by the request: answered with status 400.
    pub fn bad_request(message: String) -> (e: AppError)
        ensures
            e@ == (ErrorKind::BadRequest, message@),
    {
        AppError { kind: ErrorKind::BadRequest, message }
    }

    /// An error inside the service: answered with status 500.
    pub fn internal(message: String) -> (e: AppError)
        ensures
            e@ == (ErrorKind::Internal, message@),
    {
        AppError { kind: ErrorKind::Internal, message }
    }

    /// The HTTP status code this error is answered with.
    pub fn status_code(&self) -> (code: u16)
        ensures
            code == status_of(self.kind),
    {
        match self.kind {
            ErrorKind::BadRequest => 400,
            ErrorKind::Internal => 500,
        }
    }

    /// The text shown for this error: its message.
    pub fn to_string(&self) -> (s: String)
        ensures
            s@ == self.message@,
    {
        self.message.clone()
    }
}

} // verus!
