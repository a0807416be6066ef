//! Request and response schemas, with the input validation the HTTP layer
//! applies before a request reaches the usecases.

use vstd::prelude::*;
use validator::ValidateEmail;
use crate::error::AppError;
use crate::token_model::TokenResponse;
use crate::user_model::{FilteredUser, Role};

verus! {

/// Whether a string is a valid email address, as `validator` judges it
/// (HTML5 form rules). A pure function of the string.
pub uninterp spec fn email_ok(s: Seq<char>) -> bool;

/// Relies on `validator::ValidateEmail::validate_email` for `&str`: a pure
/// check of the string against the HTML5 email shape.
#[verifier::external_body]
fn is_valid_email(s: &str) -> (r: bool)
    ensures
        r == email_ok(s@),
{
    s.validate_email()
}

/// The body of a registration request.
pub struct RegisterSchema {
    pub name: String,
    pub email: String,
    pub password: String,
}

impl RegisterSchema {
    /// A registration is valid when the name is nonempty, the email is
    /// well-formed, and the password has at least eight characters.
    pub open spec fn spec_valid(self) -> bool {
        self.name@.len() >= 1 && email_ok(self.email@) && self.password@.len() >= 8
    }

    pub fn validate(&self) -> (r: Result<(), AppError>)
        ensures
            r is Ok <==> self.spec_valid(),
            r is Err ==> r == Err::<(), AppError>(AppError::BadRequest),
    {
        if self.name.as_str().unicode_len() < 1 {
            return Err(AppError::BadRequest);
        }
        if !is_valid_email(self.email.as_str()) {
            return Err(AppError::BadRequest);
        }
        if self.password.as_str().unicode_len() < 8 {
            return Err(AppError::BadRequest);
        }
        Ok(())
    }
}

/// The body of a login request.
pub struct LoginSchema {
    pub email: String,
    pub password: String,
}

impl LoginSchema {
    /// A login request is valid when the email is well-formed and a password
    /// was given at all.
    pub open spec fn spec_valid(self) -> bool {
        email_ok(self.email@) && self.password@.len() >= 1
    }

    pub fn validate(&self) -> (r: Result<(), AppError>)
        ensures
            r is Ok <==> self.spec_valid(),
            r is Err ==> r == Err::<(), AppError>(AppError::BadRequest),
    {
        if !is_valid_email(self.email.as_str()) {
            return Err(AppError::BadRequest);
        }
        if self.password.as_str().unicode_len() < 1 {
            return Err(AppError::BadRequest);
        }
        Ok(())
    }
}

/// The body of a logout or token-refresh request.
pub struct RefreshTokenSchema {
    pub refresh_token: String,
}

/// The body of a successful registration or login reply.
pub struct AuthResponse {
    pub user: FilteredUser,
    pub tokens: TokenResponse,
}

/// The body of an administrative user-creation request.
pub struct CreateUserSchema {
    pub name: String,
    pub email: String,
    pub password: String,
    pub role: Role,
}

/// The body of a user-update request; absent fields stay unchanged.
pub struct UpdateUserSchema {
    pub name: Option<String>,
    pub email: Option<String>,
    pub password: Option<String>,
}

/// The query parameters of a user-listing request.
pub struct GetUsersQuery {
    pub page: Option<u32>,
    pub limit: Option<u32>,
}

} // verus!
