//! The error taxonomy of the backend: every failing operation reports one
//! of these kinds, and each kind maps to a fixed HTTP status code.

use vstd::prelude::*;

verus! {

/// An operation's failure, carrying the message shown to the caller.
#[derive(Debug)]
pub enum ApiError {
    /// Bad, missing or expired credentials (401).
    Unauthenticated(String),
    /// Role or scope denial, or system-role protection (403).
    Forbidden(String),
    /// Missing or soft-deleted entity (404).
    NotFound(String),
    /// Missing required parameter or malformed input (400).
    BadRequest(String),
    /// Store failure (500).
    Internal(String),
}

impl ApiError {
    /// The HTTP status code of this error kind.
    pub open spec fn status_spec(&self) -> u16 {
        match self {
            ApiError::Unauthenticated(_) => 401,
            ApiError::Forbidden(_) => 403,
            ApiError::NotFound(_) => 404,
            ApiError::BadRequest(_) => 400,
            ApiError::Internal(_) => 500,
        }
    }

    pub fn status(&self) -> (s: u16)
        ensures
            s == self.status_spec(),
    {
        match self {
            ApiError::Unauthenticated(_) => 401,
            ApiError::Forbidden(_) => 403,
            ApiError::NotFound(_) => 404,
            ApiError::BadRequest(_) => 400,
            ApiError::Internal(_) => 500,
        }
    }

    /// The message carried by the error.
    pub open spec fn message_spec(&self) -> Seq<char> {
        match self {
            ApiError::Unauthenticated(m) => m@,
            ApiError::Forbidden(m) => m@,
            ApiError::NotFound(m) => m@,
            ApiError::BadRequest(m) => m@,
            ApiError::Internal(m) => m@,
        }
    }

    pub fn message(&self) -> (m: &String)
        ensures
            m@ == self.message_spec(),
    {
        match self {
            ApiError::Unauthenticated(m) => m,
            ApiError::Forbidden(m) => m,
            ApiError::NotFound(m) => m,
            ApiError::BadRequest(m) => m,
            ApiError::Internal(m) => m,
        }
    }
}

} // verus!
