//! Token data: claims, kind tags, and the token-pair response.

use vstd::prelude::*;

verus! {

/// The purpose tag carried inside a signed token. An access-token verifier
/// rejects a refresh token presented in its place, and vice versa.
#[derive(Clone, Copy, Debug, PartialEq, Eq, Structural)]
pub enum TokenKind {
    Access,
    Refresh,
}

/// The kind of a persisted token record.
#[derive(Clone, Copy, Debug, PartialEq, Eq, Structural)]
pub enum TokenType {
    Refresh,
    ResetPassword,
    VerifyEmail,
}

/// The claims of a signed token: subject identity id, issued-at and
/// expires-at epochs (seconds), and the kind tag. Claims are transient: they
/// exist only inside a signed token string and are never persisted.
#[derive(Clone, Copy, Debug, PartialEq, Eq, Structural)]
pub struct TokenClaims {
    pub sub: u64,
    pub iat: u64,
    pub exp: u64,
    pub token_type: TokenKind,
}

/// One signed opaque token string with its absolute expiry epoch.
pub struct TokenDetails {
    pub token: String,
    pub expires_in: u64,
}

/// The pair handed to a freshly authenticated client.
pub struct TokenResponse {
    pub access_token: TokenDetails,
    pub refresh_token: TokenDetails,
}

} // verus!
