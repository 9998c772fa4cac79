//! The error type that route logic reports to its callers.
use vstd::prelude::*;
use crate::text::{copy_str, push_str};

verus! {

/// Failure of a request, by the HTTP status it maps to.
#[derive(Debug)]
pub enum ApiError {
    /// 400: the request itself is invalid.
    BadRequest(String),
    /// 401: authentication is missing or invalid.
    Unauthorized(String),
    /// 404: the addressed resource does not exist.
    NotFound(String),
    /// 404: the addressed session does not exist.
    SessionNotFound(String),
    /// 409: a conflicting operation is in progress.
    Conflict(String),
    /// 500: the server failed.
    Internal(String),
}

impl ApiError {
    /// The HTTP status code the error maps to.
    pub fn status_code(&self) -> (code: u16)
        ensures
            code == (match self {
                ApiError::BadRequest(_) => 400u16,
                ApiError::Unauthorized(_) => 401u16,
                ApiError::NotFound(_) => 404u16,
                ApiError::SessionNotFound(_) => 404u16,
                ApiError::Conflict(_) => 409u16,
                ApiError::Internal(_) => 500u16,
            }),
    {
        match self {
            ApiError::BadRequest(_) => 400,
            ApiError::Unauthorized(_) => 401,
            ApiError::NotFound(_) => 404,
            ApiError::SessionNotFound(_) => 404,
            ApiError::Conflict(_) => 409,
            ApiError::Internal(_) => 500,
        }
    }
}

/// "Session <id> not found".
pub open spec fn session_missing_text(id: Seq<char>) -> Seq<char> {
    "Session "@ + id + " not found"@
}

/// The error for a session id that the database does not know.
pub fn session_missing(id: &str) -> (e: ApiError)
    ensures
        e matches ApiError::NotFound(m) && m@ == session_missing_text(id@),
{
    let mut m = copy_str("Session ");
    push_str(&mut m, id);
    push_str(&mut m, " not found");
    ApiError::NotFound(m)
}

} // verus!
