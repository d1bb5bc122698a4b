//! Errors that the server turns into HTTP responses.
use vstd::prelude::*;

verus! {

/// HTTP status 400.
pub const BAD_REQUEST: u16 = 400;

/// HTTP status 401.
pub const UNAUTHORIZED: u16 = 401;

/// HTTP status 403.
pub const FORBIDDEN: u16 = 403;

/// HTTP status 404.
pub const NOT_FOUND: u16 = 404;

/// HTTP status 500.
pub const INTERNAL_SERVER_ERROR: u16 = 500;

/// An error of the server: an internal failure, or a failure that the caller is
/// told about with a status code and a message.
#[derive(Debug)]
pub enum ServeError {
    Internal(String),
    UserFacing(u16, String),
}

impl ServeError {
    /// The status code of the response that reports this error.
    pub open spec fn spec_status_code(&self) -> u16 {
        match self {
            ServeError::Internal(_) => INTERNAL_SERVER_ERROR,
            ServeError::UserFacing(code, _) => *code,
        }
    }

    /// The status code of the response that reports this error.
    pub fn status_code(&self) -> (code: u16)
        ensures
            code == self.spec_status_code(),
    {
        match self {
            ServeError::Internal(_) => INTERNAL_SERVER_ERROR,
            ServeError::UserFacing(code, _) => *code,
        }
    }

    /// The message carried by this error.
    pub open spec fn spec_message(&self) -> Seq<char> {
        match self {
            ServeError::Internal(m) => m@,
            ServeError::UserFacing(_, m) => m@,
        }
    }

    /// The message carried by this error.
    pub fn message(&self) -> (m: String)
        ensures
            m@ == self.spec_message(),
    {
        match self {
            ServeError::Internal(m) => m.clone(),
            ServeError::UserFacing(_, m) => m.clone(),
        }
    }
}

/// `e` is reported to the caller with status `code` and message `message`.
pub open spec fn is_user_error(e: ServeError, code: u16, message: Seq<char>) -> bool {
    e matches ServeError::UserFacing(c, m) && c == code && m@ == message
}

} // verus!
