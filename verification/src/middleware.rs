//! The two request gates. `auth` turns an `Authorization` header into the
//! requesting identity: it extracts the bearer token, verifies it as an
//! access token, and loads the subject. `admin_only` then enforces a role
//! floor. A request failing either gate never reaches its handler.

use vstd::prelude::*;
use crate::codec::{spec_decode, verify_token};
use crate::config::TokenSettings;
use crate::error::AppError;
use crate::token_model::{TokenClaims, TokenKind};
use crate::user_model::{Role, User};
use crate::user_repository::{UserRepository, spec_find_id};

verus! {

/// The token inside an `Authorization` header, if the header is present and
/// carries the `Bearer ` scheme.
pub open spec fn spec_bearer(header: Option<Seq<char>>) -> Option<Seq<char>> {
    match header {
        None => None,
        Some(h) => if h.len() >= 7 && h.take(7) == "Bearer "@ {
            Some(h.skip(7))
        } else {
            None
        },
    }
}

/// Extract the bearer token from an `Authorization` header value.
pub fn extract_bearer<'a>(header: Option<&'a str>) -> (r: Option<&'a str>)
    ensures
        match r {
            Some(t) => spec_bearer(match header {
                Some(h) => Some(h@),
                None => None,
            }) == Some(t@),
            None => spec_bearer(match header {
                Some(h) => Some(h@),
                None => None,
            }) is None,
        },
{
    let h = match header {
        Some(h) => h,
        None => {
            return None;
        },
    };
    let len = h.unicode_len();
    proof {
        reveal_strlit("Bearer ");
        assert("Bearer "@.len() == 7);
    }
    if len < 7 {
        return None;
    }
    let mut i: usize = 0;
    while i < 7
        invariant
            i <= 7,
            len == h@.len(),
            len >= 7,
            header == Some(h),
            forall|j: int| 0 <= j < i ==> h@[j] == "Bearer "@[j],
        decreases 7 - i,
    {
        proof {
            reveal_strlit("Bearer ");
        }
        if h.get_char(i) != "Bearer ".get_char(i) {
            proof {
                assert(h@.take(7)[i as int] != "Bearer "@[i as int]);
            }
            return None;
        }
        i = i + 1;
    }
    proof {
        assert(h@.take(7) =~= "Bearer "@);
    }
    Some(h.substring_char(7, len))
}

/// The outcome of authentication for a header value, an identity store and
/// a time.
pub open spec fn spec_auth(
    users: Seq<User>,
    settings: TokenSettings,
    header: Option<Seq<char>>,
    now: u64,
) -> Result<User, AppError> {
    match spec_bearer(header) {
        None => Err(AppError::Unauthorized),
        Some(token) => match spec_decode(token, settings.secret@, TokenKind::Access, now) {
            None => Err(AppError::Unauthorized),
            Some(claims) => match spec_find_id(users, claims.sub) {
                None => Err(AppError::NotFound),
                Some(u) => Ok(u),
            },
        },
    }
}

/// The authentication gate: extract the bearer token, verify it on the
/// access-token path (signature, kind tag, expiry), and load the owning
/// identity. A missing or malformed header and any verification failure are
/// `Unauthorized` alike; a valid token whose identity has vanished is the
/// anomaly `NotFound`.
pub fn auth(
    users: &UserRepository,
    settings: &TokenSettings,
    authorization: Option<&str>,
    now: u64,
) -> (r: Result<User, AppError>)
    ensures
        r == spec_auth(
            users.users@,
            *settings,
            match authorization {
                Some(h) => Some(h@),
                None => None,
            },
            now,
        ),
{
    let token = match extract_bearer(authorization) {
        Some(t) => t,
        None => {
            return Err(AppError::Unauthorized);
        },
    };
    let claims = match verify_token(token, settings.secret.as_str(), TokenKind::Access, now) {
        Ok(c) => c,
        Err(_) => {
            return Err(AppError::Unauthorized);
        },
    };
    match users.find_by_id(claims.sub) {
        Some(u) => Ok(u),
        None => Err(AppError::NotFound),
    }
}

/// The authorization gate behind `auth`: only a role ranked at or above
/// `admin` passes; everyone else is `Forbidden`.
pub fn admin_only(user: &User) -> (r: Result<(), AppError>)
    ensures
        r is Ok <==> user.role.rank() >= Role::Admin.rank(),
        r is Err ==> r == Err::<(), AppError>(AppError::Forbidden),
{
    if user.role.at_least(&Role::Admin) {
        Ok(())
    } else {
        Err(AppError::Forbidden)
    }
}

} // verus!
