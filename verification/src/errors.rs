//! The error taxonomy surfaced to callers, and the mapping from HTTP
//! status codes to its typed variants.

use vstd::prelude::*;

verus! {

/// Error surfaced by the client's operations.
#[derive(Debug, Clone, PartialEq, Eq)]
pub enum Error {
    /// The remote answered with HTTP 404.
    NotFound,
    /// The remote answered with HTTP 401.
    Unauthorized,
    /// The remote answered with HTTP 400.
    BadRequest,
    /// The remote answered the structured error envelope with this code and message.
    Api(u16, String),
    /// Any other network or HTTP failure, carrying its cause.
    Transport(String),
}

/// Error when creating a client.
#[derive(Debug, Clone, PartialEq, Eq)]
pub enum ClientError {
    /// The token cannot be placed into an HTTP header.
    Token(String),
    /// The HTTP transport could not be built.
    Client(String),
}

/// True when an HTTP status code lies in the success range.
pub open spec fn spec_status_ok(status: u16) -> bool {
    200 <= status < 300
}

/// The error owed for a failing HTTP status: 400, 401 and 404 become their
/// typed variants; any other failing status is a transport failure carrying
/// `cause`.
pub open spec fn status_error(status: u16, cause: Seq<char>, e: Error) -> bool {
    if status == 400 {
        e == Error::BadRequest
    } else if status == 401 {
        e == Error::Unauthorized
    } else if status == 404 {
        e == Error::NotFound
    } else {
        e matches Error::Transport(m) && m@ == cause
    }
}

impl Error {
    /// Map a failing HTTP status code to the typed error. The status check
    /// runs before any look at the response body, so a 404 is always the
    /// typed `NotFound`, never a generic transport error.
    pub fn from_status(status: u16, cause: String) -> (r: Error)
        requires
            !spec_status_ok(status),
        ensures
            status_error(status, cause@, r),
    {
        if status == 400 {
            Error::BadRequest
        } else if status == 401 {
            Error::Unauthorized
        } else if status == 404 {
            Error::NotFound
        } else {
            Error::Transport(cause)
        }
    }
}

} // verus!
