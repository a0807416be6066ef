//! The error taxonomy of the service and its mapping to HTTP-style responses.

use vstd::prelude::*;

verus! {

/// Every failure the core can report. Domain checks (duplicate email, bad
/// credentials, missing role) map to the first five variants; infrastructure
/// failures (signing, hashing, exhausted id space) are folded into
/// `InternalServerError` so that no internals leak to the caller.
#[derive(Clone, Copy, Debug, PartialEq, Eq, Structural)]
pub enum AppError {
    InternalServerError,
    NotFound,
    BadRequest,
    Conflict,
    Unauthorized,
    Forbidden,
}

/// The body of an error reply: a status code and a human-readable message.
pub struct ErrorResponse {
    pub code: u16,
    pub message: String,
}

impl AppError {
    /// The HTTP status code that the error maps to.
    pub open spec fn spec_status_code(self) -> u16 {
        match self {
            AppError::InternalServerError => 500,
            AppError::NotFound => 404,
            AppError::BadRequest => 400,
            AppError::Conflict => 409,
            AppError::Unauthorized => 401,
            AppError::Forbidden => 403,
        }
    }

    /// The message of the error. Bad credentials and unknown emails share one
    /// variant, so their user-visible text is identical by construction.
    pub open spec fn spec_message(self) -> Seq<char> {
        match self {
            AppError::InternalServerError => "Internal Server Error"@,
            AppError::NotFound => "Not Found"@,
            AppError::BadRequest => "Bad Request"@,
            AppError::Conflict => "Conflict"@,
            AppError::Unauthorized => "Unauthorized"@,
            AppError::Forbidden => "Forbidden"@,
        }
    }

    pub fn status_code(&self) -> (code: u16)
        ensures
            code == self.spec_status_code(),
    {
        match self {
            AppError::InternalServerError => 500,
            AppError::NotFound => 404,
            AppError::BadRequest => 400,
            AppError::Conflict => 409,
            AppError::Unauthorized => 401,
            AppError::Forbidden => 403,
        }
    }

    pub fn message(&self) -> (message: String)
        ensures
            message@ == self.spec_message(),
    {
        match self {
            AppError::InternalServerError => String::from_str("Internal Server Error"),
            AppError::NotFound => String::from_str("Not Found"),
            AppError::BadRequest => String::from_str("Bad Request"),
            AppError::Conflict => String::from_str("Conflict"),
            AppError::Unauthorized => String::from_str("Unauthorized"),
            AppError::Forbidden => String::from_str("Forbidden"),
        }
    }

    /// Render the error as a response body, as the HTTP boundary does.
    pub fn into_response(&self) -> (response: ErrorResponse)
        ensures
            response.code == self.spec_status_code(),
            response.message@ == self.spec_message(),
    {
        ErrorResponse { code: self.status_code(), message: self.message() }
    }
}

} // verus!
