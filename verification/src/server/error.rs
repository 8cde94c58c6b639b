//! Errors of the web handlers: what the user is told, with which status,
//! and how loudly it is logged.

use vstd::prelude::*;
use crate::logging::Level;

verus! {

/// A failed request: the status, the message the user sees, and the real
/// cause for the logs (never shown to the user).
#[derive(Debug)]
pub struct AppError {
    pub status: u16,
    pub message: String,
    pub internal: Option<String>,
}

/// The body sent with an error: `{"error": message}`.
pub struct ErrorResponse {
    pub error: String,
}

/// Client errors (4xx) are logged as warnings, everything else as errors.
pub open spec fn error_level(status: u16) -> Level {
    if 400 <= status <= 499 {
        Level::Warn
    } else {
        Level::Error
    }
}

pub open spec fn generic_message() -> Seq<char> {
    "something went wrong 💀"@
}

impl AppError {
    /// An error with a message for the user and no internal cause.
    pub fn message(status: u16, message: &str) -> (r: AppError)
        ensures
            r.status == status,
            r.message@ == message@,
            r.internal is None,
    {
        AppError { status, message: String::from_str(message), internal: None }
    }

    /// An error with a message built by the caller.
    pub fn with_message(status: u16, message: String) -> (r: AppError)
        ensures
            r.status == status,
            r.message@ == message@,
            r.internal is None,
    {
        AppError { status, message, internal: None }
    }

    /// Attaches the real cause, for the logs only.
    pub fn with_internal(self, error: String) -> (r: AppError)
        ensures
            r.status == self.status,
            r.message@ == self.message@,
            r.internal matches Some(e) && e@ == error@,
    {
        AppError { internal: Some(error), ..self }
    }

    /// An unexpected failure: status 500 with a generic message, the cause
    /// kept for the logs.
    pub fn internal_error(error: String) -> (r: AppError)
        ensures
            r.status == 500,
            r.message@ == generic_message(),
            r.internal matches Some(e) && e@ == error@,
    {
        AppError { status: 500, message: String::from_str("something went wrong 💀"), internal: Some(error) }
    }

    /// The level this error is logged at.
    pub fn log_level(&self) -> (r: Level)
        ensures
            r == error_level(self.status),
    {
        if 400 <= self.status && self.status <= 499 {
            Level::Warn
        } else {
            Level::Error
        }
    }

    /// The response: status, body and the level to log at.
    pub fn into_response(self) -> (r: (u16, ErrorResponse, Level))
        ensures
            r.0 == self.status,
            r.1.error@ == self.message@,
            r.2 == error_level(self.status),
    {
        let level = self.log_level();
        (self.status, ErrorResponse { error: self.message }, level)
    }
}

} // verus!
