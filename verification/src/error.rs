//! The ways a service call can fail.

use vstd::prelude::*;

verus! {

/// Why a service call was not carried out.
#[derive(Clone, Copy, Debug, PartialEq, Eq, Structural)]
pub enum ServiceError {
    /// The session has no identity bound to it, so there is no owner to act for.
    NoSession,
    /// The offset of a listing does not fit a signed 64-bit row count.
    InvalidOffset,
    /// The storage refused the statement: the tables are missing, or no row
    /// id is left to give out.
    Storage,
}

impl ServiceError {
    /// The HTTP status that answers a request which failed in this way: an
    /// unbound session is unauthorized, a bad offset is a bad request, and a
    /// storage failure is the server's own.
    pub fn status(&self) -> (code: u16)
        ensures
            code == match *self {
                ServiceError::NoSession => 401u16,
                ServiceError::InvalidOffset => 400u16,
                ServiceError::Storage => 500u16,
            },
    {
        match self {
            ServiceError::NoSession => 401,
            ServiceError::InvalidOffset => 400,
            ServiceError::Storage => 500,
        }
    }

    /// A one-line description for logs and responses.
    pub fn message(&self) -> (text: &'static str)
        ensures
            text@ == match *self {
                ServiceError::NoSession => "Failed to get the bicmid from session"@,
                ServiceError::InvalidOffset => "offset out of range"@,
                ServiceError::Storage => "storage failure"@,
            },
    {
        match self {
            ServiceError::NoSession => "Failed to get the bicmid from session",
            ServiceError::InvalidOffset => "offset out of range",
            ServiceError::Storage => "storage failure",
        }
    }
}

} // verus!
