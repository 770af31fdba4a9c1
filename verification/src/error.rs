//! The errors that handlers and middleware answer with, and the status code
//! that each of them is sent with.

use crate::text::{extend_str, from_chars};
use vstd::prelude::*;

verus! {

/// What went wrong while a request was served.
#[derive(Debug)]
pub enum ServerError {
    /// The transport failed; the text is the failure's description.
    IoError(String),
    ParseError(String),
    ValidationError(String),
    NotFound,
    BadRequest(String),
    Unauthorized(String),
    Forbidden(String),
    InternalError(String),
    Conflict(String),
    /// A handler or a middleware ended abnormally.
    PanicError(String),
    TooManyRequests,
}

/// What a handler or a middleware answers with.
pub type ServerResult<T> = Result<T, ServerError>;

impl ServerError {
    /// The status code that the error is sent with.
    pub open spec fn status(&self) -> u16 {
        match self {
            ServerError::BadRequest(_) => 400,
            ServerError::Unauthorized(_) => 401,
            ServerError::Forbidden(_) => 403,
            ServerError::NotFound => 404,
            ServerError::Conflict(_) => 409,
            ServerError::ParseError(_) => 422,
            ServerError::ValidationError(_) => 422,
            ServerError::TooManyRequests => 429,
            ServerError::IoError(_) => 500,
            ServerError::InternalError(_) => 500,
            ServerError::PanicError(_) => 500,
        }
    }

    /// The words that the error's message begins with.
    pub open spec fn label(&self) -> Seq<char> {
        match self {
            ServerError::IoError(_) => "IO error: "@,
            ServerError::ParseError(_) => "Parse error: "@,
            ServerError::ValidationError(_) => "Validation error: "@,
            ServerError::NotFound => "Not found"@,
            ServerError::BadRequest(_) => "Bad request: "@,
            ServerError::Unauthorized(_) => "Unauthorized: "@,
            ServerError::Forbidden(_) => "Forbidden: "@,
            ServerError::Conflict(_) => "Conflict: "@,
            ServerError::InternalError(_) => "Internal error: "@,
            ServerError::PanicError(_) => "Panic: "@,
            ServerError::TooManyRequests => "Too many requests"@,
        }
    }

    /// The detail that the error carries; empty where it carries none.
    pub open spec fn detail(&self) -> Seq<char> {
        match self {
            ServerError::IoError(s) => s@,
            ServerError::ParseError(s) => s@,
            ServerError::ValidationError(s) => s@,
            ServerError::NotFound => Seq::empty(),
            ServerError::BadRequest(s) => s@,
            ServerError::Unauthorized(s) => s@,
            ServerError::Forbidden(s) => s@,
            ServerError::Conflict(s) => s@,
            ServerError::InternalError(s) => s@,
            ServerError::PanicError(s) => s@,
            ServerError::TooManyRequests => Seq::empty(),
        }
    }

    /// The error's message: its label and then its detail.
    pub open spec fn text(&self) -> Seq<char> {
        self.label() + self.detail()
    }

    /// The status code that the error is sent with.
    pub fn status_code(&self) -> (code: u16)
        ensures
            code == self.status(),
    {
        match self {
            ServerError::BadRequest(_) => 400,
            ServerError::Unauthorized(_) => 401,
            ServerError::Forbidden(_) => 403,
            ServerError::NotFound => 404,
            ServerError::Conflict(_) => 409,
            ServerError::ParseError(_) => 422,
            ServerError::ValidationError(_) => 422,
            ServerError::TooManyRequests => 429,
            ServerError::IoError(_) => 500,
            ServerError::InternalError(_) => 500,
            ServerError::PanicError(_) => 500,
        }
    }

    /// The error's message.
    pub fn message(&self) -> (out: String)
        ensures
            out@ == self.text(),
    {
        let mut out: Vec<char> = Vec::new();
        match self {
            ServerError::IoError(s) => {
                extend_str(&mut out, "IO error: ");
                extend_str(&mut out, s.as_str());
            },
            ServerError::ParseError(s) => {
                extend_str(&mut out, "Parse error: ");
                extend_str(&mut out, s.as_str());
            },
            ServerError::ValidationError(s) => {
                extend_str(&mut out, "Validation error: ");
                extend_str(&mut out, s.as_str());
            },
            ServerError::NotFound => {
                extend_str(&mut out, "Not found");
            },
            ServerError::BadRequest(s) => {
                extend_str(&mut out, "Bad request: ");
                extend_str(&mut out, s.as_str());
            },
            ServerError::Unauthorized(s) => {
                extend_str(&mut out, "Unauthorized: ");
                extend_str(&mut out, s.as_str());
            },
            ServerError::Forbidden(s) => {
                extend_str(&mut out, "Forbidden: ");
                extend_str(&mut out, s.as_str());
            },
            ServerError::Conflict(s) => {
                extend_str(&mut out, "Conflict: ");
                extend_str(&mut out, s.as_str());
            },
            ServerError::InternalError(s) => {
                extend_str(&mut out, "Internal error: ");
                extend_str(&mut out, s.as_str());
            },
            ServerError::PanicError(s) => {
                extend_str(&mut out, "Panic: ");
                extend_str(&mut out, s.as_str());
            },
            ServerError::TooManyRequests => {
                extend_str(&mut out, "Too many requests");
            },
        }
        assert(out@ =~= self.text());
        from_chars(out.as_slice())
    }
}

} // verus!
