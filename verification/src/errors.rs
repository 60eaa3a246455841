//! The errors that reach a caller.

use crate::models::MessageResponse;
use crate::text::push_text;
use vstd::prelude::*;

verus! {

/// An error as the caller of the service sees it.
///
/// The store's and the pool's own errors are carried as their texts.
#[derive(Clone, Debug)]
pub enum MyError {
    NotFound,
    PGError(String),
    PGMError(String),
    PoolError(String),
    InternalError(&'static str),
    BadRequest(&'static str),
    Timeout(&'static str),
}

/// The status of a malformed request.
pub const BAD_REQUEST: u16 = 400;

/// The status of a failure on the server's side.
pub const INTERNAL_SERVER_ERROR: u16 = 500;

/// The status of a collaborator that did not answer in time.
pub const GATEWAY_TIMEOUT: u16 = 504;

impl MyError {
    /// The HTTP status that goes with the error.
    pub open spec fn spec_status_code(self) -> u16 {
        match self {
            MyError::BadRequest(_) => BAD_REQUEST,
            MyError::Timeout(_) => GATEWAY_TIMEOUT,
            _ => INTERNAL_SERVER_ERROR,
        }
    }

    /// The text of the error.
    pub open spec fn spec_message(self) -> Seq<char> {
        match self {
            MyError::NotFound => "NotFound"@,
            MyError::PGError(cause) => cause@,
            MyError::PGMError(cause) => cause@,
            MyError::PoolError(cause) => cause@,
            MyError::InternalError(reason) => "Internal Error: "@ + reason@,
            MyError::BadRequest(reason) => "Bad Request: "@ + reason@,
            MyError::Timeout(reason) => "Gateway Timeout: "@ + reason@,
        }
    }

    pub fn status_code(&self) -> (status: u16)
        ensures
            status == self.spec_status_code(),
    {
        match self {
            MyError::BadRequest(_) => BAD_REQUEST,
            MyError::Timeout(_) => GATEWAY_TIMEOUT,
            _ => INTERNAL_SERVER_ERROR,
        }
    }

    /// The text of the error, as it is shown and logged.
    pub fn message(&self) -> (message: String)
        ensures
            message@ == self.spec_message(),
    {
        let mut message: String = String::new();
        match self {
            MyError::NotFound => {
                push_text(&mut message, "NotFound");
            },
            MyError::PGError(cause) => {
                push_text(&mut message, cause.as_str());
            },
            MyError::PGMError(cause) => {
                push_text(&mut message, cause.as_str());
            },
            MyError::PoolError(cause) => {
                push_text(&mut message, cause.as_str());
            },
            MyError::InternalError(reason) => {
                push_text(&mut message, "Internal Error: ");
                push_text(&mut message, reason);
            },
            MyError::BadRequest(reason) => {
                push_text(&mut message, "Bad Request: ");
                push_text(&mut message, reason);
            },
            MyError::Timeout(reason) => {
                push_text(&mut message, "Gateway Timeout: ");
                push_text(&mut message, reason);
            },
        }
        message
    }

    /// The body that answers a request that failed with the error.
    pub fn error_response(&self) -> (body: MessageResponse)
        ensures
            body.message@ == self.spec_message(),
    {
        MessageResponse { message: self.message() }
    }
}

} // verus!
