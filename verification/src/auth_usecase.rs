//! The session usecase: register, login, logout and refresh, composed from
//! the credential verifier (bcrypt), the token issuer/codec and the two
//! stores. A session moves `unauthenticated -> authenticated` on register or
//! login, `authenticated -> rotated` on refresh (the presented refresh token
//! is consumed before its replacement is issued), and `-> revoked` on logout.

use vstd::prelude::*;
use crate::codec::{sign_token, token_rep};
use crate::config::TokenSettings;
use crate::error::AppError;
use crate::schemas::{LoginSchema, RegisterSchema};
use crate::token_model::{TokenClaims, TokenDetails, TokenKind, TokenResponse, TokenType};
use crate::token_repository::{
    Token, TokenRepository, lemma_find_active_props, spec_find_active, spec_has_active,
    spec_has_token,
};
use crate::seq_util::lemma_filter_congruence;
use crate::user_model::{FilteredUser, Role, spec_filtered};
use crate::user_repository::{UserRepository, spec_find_email, spec_find_id, spec_has_email};

verus! {

/// How long a persisted refresh record lives: a fixed thirty days.
pub const REFRESH_RECORD_TTL_SECS: u64 = 2592000;

/// The bcrypt cost used for freshly registered credentials.
pub const REGISTER_HASH_COST: u32 = 12;

/// What `bcrypt::verify` decides for a password against a stored hash:
/// `Some(b)` when the hash parses and the check yields `b`, `None` when the
/// hash string is malformed. A pure function of both strings.
pub uninterp spec fn bcrypt_check(password: Seq<char>, hash: Seq<char>) -> Option<bool>;

#[verifier::external_type_specification]
#[verifier::external_body]
pub struct ExBcryptError(bcrypt::BcryptError);

/// Relies on `bcrypt::hash`: hashes under a fresh random salt; on success
/// the produced sixty-character hash string is well-formed and
/// `bcrypt::verify` of the same password against it returns `Ok(true)`. It
/// fails only for a cost outside 4..=31 or when the system's randomness
/// source fails.
#[verifier::external_body]
pub(crate) fn hash_password(password: &str, cost: u32) -> (r: Result<
    String,
    bcrypt::BcryptError,
>)
    ensures
        r is Ok ==> bcrypt_check(password@, r.unwrap()@) == Some(true),
{
    bcrypt::hash(password, cost)
}

/// Relies on `bcrypt::verify`: splits the hash, re-derives the hash of the
/// password under the hash's own salt and cost, and compares — deterministic
/// in its two arguments, erring exactly when the hash string is malformed.
#[verifier::external_body]
fn verify_password(password: &str, hash: &str) -> (r: Result<bool, bcrypt::BcryptError>)
    ensures
        r is Ok <==> bcrypt_check(password@, hash@) is Some,
        r is Ok ==> r.unwrap() == bcrypt_check(password@, hash@).unwrap(),
{
    bcrypt::verify(password, hash)
}

/// The claims of a token issued at `now` for `user_id` with lifetime `ttl`.
pub open spec fn spec_claims(user_id: u64, kind: TokenKind, now: u64, ttl: u64) -> TokenClaims {
    TokenClaims { sub: user_id, iat: now, exp: (now + ttl) as u64, token_type: kind }
}

/// The access-token string a pair issued at `now` carries.
pub open spec fn access_token_rep(user_id: u64, settings: TokenSettings, now: u64) -> Seq<char> {
    token_rep(spec_claims(user_id, TokenKind::Access, now, settings.access_ttl), settings.secret@)
}

/// The refresh-token string a pair issued at `now` carries.
pub open spec fn refresh_token_rep(user_id: u64, settings: TokenSettings, now: u64) -> Seq<char> {
    token_rep(
        spec_claims(user_id, TokenKind::Refresh, now, settings.refresh_ttl),
        settings.secret@,
    )
}

/// A correctly issued pair: both tokens signed for `user_id` at `now`, each
/// under its own configured lifetime and kind tag.
pub open spec fn spec_pair_ok(
    tr: TokenResponse,
    user_id: u64,
    settings: TokenSettings,
    now: u64,
) -> bool {
    &&& tr.access_token.token@ == access_token_rep(user_id, settings, now)
    &&& tr.access_token.expires_in == now + settings.access_ttl
    &&& tr.refresh_token.token@ == refresh_token_rep(user_id, settings, now)
    &&& tr.refresh_token.expires_in == now + settings.refresh_ttl
}

/// All three expiry computations of an issuance at `now` stay in range.
pub open spec fn spec_no_overflow(settings: TokenSettings, now: u64) -> bool {
    &&& now + settings.access_ttl <= u64::MAX
    &&& now + settings.refresh_ttl <= u64::MAX
    &&& now + REFRESH_RECORD_TTL_SECS <= u64::MAX
}

/// Issue one signed token: `iat = now`, `exp = now + ttl`.
pub fn create_token(user_id: u64, secret: &str, ttl: u64, kind: TokenKind, now: u64) -> (r: Result<
    TokenDetails,
    AppError,
>)
    ensures
        r is Ok <==> now + ttl <= u64::MAX,
        r is Err ==> r == Err::<TokenDetails, AppError>(AppError::InternalServerError),
        r is Ok ==> ({
            let d = r.unwrap();
            &&& d.token@ == token_rep(spec_claims(user_id, kind, now, ttl), secret@)
            &&& d.expires_in == now + ttl
        }),
{
    if ttl > u64::MAX - now {
        return Err(AppError::InternalServerError);
    }
    let exp = now + ttl;
    let claims = TokenClaims { sub: user_id, iat: now, exp, token_type: kind };
    let token = sign_token(&claims, secret);
    Ok(TokenDetails { token, expires_in: exp })
}

/// Issue the access/refresh pair for one identity at `now`.
pub fn create_auth_tokens(user_id: u64, settings: &TokenSettings, now: u64) -> (r: Result<
    TokenResponse,
    AppError,
>)
    ensures
        r is Ok <==> (now + settings.access_ttl <= u64::MAX && now + settings.refresh_ttl
            <= u64::MAX),
        r is Err ==> r == Err::<TokenResponse, AppError>(AppError::InternalServerError),
        r is Ok ==> spec_pair_ok(r.unwrap(), user_id, *settings, now),
{
    let access_token = match create_token(
        user_id,
        settings.secret.as_str(),
        settings.access_ttl,
        TokenKind::Access,
        now,
    ) {
        Ok(d) => d,
        Err(e) => {
            return Err(e);
        },
    };
    let refresh_token = match create_token(
        user_id,
        settings.secret.as_str(),
        settings.refresh_ttl,
        TokenKind::Refresh,
        now,
    ) {
        Ok(d) => d,
        Err(e) => {
            return Err(e);
        },
    };
    Ok(TokenResponse { access_token, refresh_token })
}

/// Register a new identity: reject a taken email with `Conflict`, hash the
/// password, create the identity with the `user` role, issue a token pair
/// and persist its refresh half for thirty days. Infrastructure failures
/// (hashing, id exhaustion, a token-string collision) surface as
/// `InternalServerError`; a collision after the identity row was created
/// leaves that row in place, as the storage layer commits it first.
pub fn register(
    users: &mut UserRepository,
    tokens: &mut TokenRepository,
    settings: &TokenSettings,
    data: &RegisterSchema,
    now: u64,
) -> (r: Result<(FilteredUser, TokenResponse), AppError>)
    requires
        old(users).wf(),
        old(tokens).wf(),
    ensures
        final(users).wf(),
        final(tokens).wf(),
        spec_has_email(old(users).users@, data.email@) ==> r == Err::<
            (FilteredUser, TokenResponse),
            AppError,
        >(AppError::Conflict) && *final(users) == *old(users) && *final(tokens) == *old(tokens),
        r is Err ==> *final(tokens) == *old(tokens),
        r is Err ==> (r == Err::<(FilteredUser, TokenResponse), AppError>(AppError::Conflict) || r
            == Err::<(FilteredUser, TokenResponse), AppError>(AppError::InternalServerError)),
        r == Err::<(FilteredUser, TokenResponse), AppError>(AppError::Conflict) <==> spec_has_email(
            old(users).users@,
            data.email@,
        ),
        r is Err ==> (*final(users) == *old(users) || (final(users).users@ == old(users).users@.push(
            final(users).users@.last(),
        ) && final(users).next_id == old(users).next_id + 1)),
        r is Ok ==> ({
            let u = final(users).users@.last();
            let rec = final(tokens).records@.last();
            &&& !spec_has_email(old(users).users@, data.email@)
            &&& final(users).users@ == old(users).users@.push(u)
            &&& final(users).next_id == old(users).next_id + 1
            &&& u.id == old(users).next_id
            &&& u.name@ == data.name@
            &&& u.email@ == data.email@
            &&& bcrypt_check(data.password@, u.password@) == Some(true)
            &&& u.role == Role::User
            &&& !u.is_email_verified
            &&& u.created_at == now
            &&& u.updated_at == now
            &&& r.unwrap().0 == spec_filtered(u)
            &&& spec_pair_ok(r.unwrap().1, u.id, *settings, now)
            &&& final(tokens).records@ == old(tokens).records@.push(rec)
            &&& final(tokens).next_id == old(tokens).next_id + 1
            &&& rec.token@ == refresh_token_rep(u.id, *settings, now)
            &&& rec.user_id == u.id
            &&& rec.token_type == TokenType::Refresh
            &&& rec.expires_at == now + REFRESH_RECORD_TTL_SECS
            &&& !rec.blacklisted
        }),
{
    match users.find_by_email(data.email.as_str()) {
        Some(_) => {
            return Err(AppError::Conflict);
        },
        None => {},
    }
    let password_hash = match hash_password(data.password.as_str(), REGISTER_HASH_COST) {
        Ok(h) => h,
        Err(_) => {
            return Err(AppError::InternalServerError);
        },
    };
    let new_user = match users.create(
        data.name.as_str(),
        data.email.as_str(),
        password_hash.as_str(),
        Role::User,
        now,
    ) {
        Ok(u) => u,
        Err(_) => {
            return Err(AppError::InternalServerError);
        },
    };
    let auth_tokens = match create_auth_tokens(new_user.id, settings, now) {
        Ok(t) => t,
        Err(_) => {
            return Err(AppError::InternalServerError);
        },
    };
    if REFRESH_RECORD_TTL_SECS > u64::MAX - now {
        return Err(AppError::InternalServerError);
    }
    let expires_at = now + REFRESH_RECORD_TTL_SECS;
    match tokens.create(
        auth_tokens.refresh_token.token.as_str(),
        new_user.id,
        expires_at,
        TokenType::Refresh,
    ) {
        Ok(_) => {},
        Err(_) => {
            return Err(AppError::InternalServerError);
        },
    }
    let fu = FilteredUser::from(&new_user);
    Ok((fu, auth_tokens))
}

/// Authenticate by email and password. An unknown email and a wrong password
/// fail the same way — `Unauthorized`, with one shared message — so that a
/// caller cannot probe which emails exist. On success a fresh pair is issued
/// and its refresh half persisted; the identity store is never changed.
pub fn login(
    users: &UserRepository,
    tokens: &mut TokenRepository,
    settings: &TokenSettings,
    data: &LoginSchema,
    now: u64,
) -> (r: Result<(FilteredUser, TokenResponse), AppError>)
    requires
        old(tokens).wf(),
    ensures
        final(tokens).wf(),
        ({
            let m = spec_find_email(users.users@, data.email@);
            &&& (m is None ==> r == Err::<(FilteredUser, TokenResponse), AppError>(
                AppError::Unauthorized,
            ) && *final(tokens) == *old(tokens))
            &&& (m matches Some(u) ==> ({
                let chk = bcrypt_check(data.password@, u.password@);
                &&& (chk is None ==> r == Err::<(FilteredUser, TokenResponse), AppError>(
                    AppError::InternalServerError,
                ) && *final(tokens) == *old(tokens))
                &&& (chk == Some(false) ==> r == Err::<(FilteredUser, TokenResponse), AppError>(
                    AppError::Unauthorized,
                ) && *final(tokens) == *old(tokens))
                &&& (chk == Some(true) ==> ({
                    let fresh = !spec_has_token(
                        old(tokens).records@,
                        refresh_token_rep(u.id, *settings, now),
                    ) && old(tokens).next_id < u64::MAX;
                    &&& (spec_no_overflow(*settings, now) && fresh ==> ({
                        let rec = final(tokens).records@.last();
                        &&& r is Ok
                        &&& r.unwrap().0 == spec_filtered(u)
                        &&& spec_pair_ok(r.unwrap().1, u.id, *settings, now)
                        &&& final(tokens).records@ == old(tokens).records@.push(rec)
                        &&& final(tokens).next_id == old(tokens).next_id + 1
                        &&& rec.token@ == refresh_token_rep(u.id, *settings, now)
                        &&& rec.user_id == u.id
                        &&& rec.token_type == TokenType::Refresh
                        &&& rec.expires_at == now + REFRESH_RECORD_TTL_SECS
                        &&& !rec.blacklisted
                    }))
                    &&& (!(spec_no_overflow(*settings, now) && fresh) ==> r == Err::<
                        (FilteredUser, TokenResponse),
                        AppError,
                    >(AppError::InternalServerError) && *final(tokens) == *old(tokens))
                }))
            }))
        }),
{
    let user = match users.find_by_email(data.email.as_str()) {
        Some(u) => u,
        None => {
            return Err(AppError::Unauthorized);
        },
    };
    let is_valid = match verify_password(data.password.as_str(), user.password.as_str()) {
        Ok(b) => b,
        Err(_) => {
            return Err(AppError::InternalServerError);
        },
    };
    if !is_valid {
        return Err(AppError::Unauthorized);
    }
    let auth_tokens = match create_auth_tokens(user.id, settings, now) {
        Ok(t) => t,
        Err(_) => {
            return Err(AppError::InternalServerError);
        },
    };
    if REFRESH_RECORD_TTL_SECS > u64::MAX - now {
        return Err(AppError::InternalServerError);
    }
    let expires_at = now + REFRESH_RECORD_TTL_SECS;
    match tokens.create(
        auth_tokens.refresh_token.token.as_str(),
        user.id,
        expires_at,
        TokenType::Refresh,
    ) {
        Ok(_) => {},
        Err(_) => {
            return Err(AppError::InternalServerError);
        },
    }
    let fu = FilteredUser::from(&user);
    Ok((fu, auth_tokens))
}

/// Revoke one session: look up the presented refresh token and hard-delete
/// its record. Terminal — no replacement is issued. An unknown or revoked
/// token fails with `NotFound`.
pub fn logout(tokens: &mut TokenRepository, refresh_token: &str) -> (r: Result<(), AppError>)
    requires
        old(tokens).wf(),
    ensures
        final(tokens).wf(),
        !spec_has_active(old(tokens).records@, refresh_token@) ==> r == Err::<(), AppError>(
            AppError::NotFound,
        ) && *final(tokens) == *old(tokens),
        spec_has_active(old(tokens).records@, refresh_token@) ==> r is Ok
            && final(tokens).records@ == old(tokens).records@.filter(
            |t: Token| t.token@ != refresh_token@,
        ) && final(tokens).next_id == old(tokens).next_id,
{
    let doc = match tokens.find_by_token(refresh_token) {
        Some(d) => d,
        None => {
            return Err(AppError::NotFound);
        },
    };
    let ghost orig = tokens.records@;
    tokens.delete(doc.id);
    proof {
        lemma_find_active_props(orig, refresh_token@);
        let i0 = choose|i0: int|
            0 <= i0 < orig.len() && orig[i0] == doc && doc.token@ == refresh_token@
                && !doc.blacklisted;
        assert forall|i: int|
            0 <= i < orig.len() implies (((#[trigger] orig[i]).id != doc.id) <==> (orig[i].token@
            != refresh_token@)) by {
            if i < i0 {
                assert(orig[i].id != orig[i0].id);
                assert(orig[i].token@ != orig[i0].token@);
            } else if i > i0 {
                assert(orig[i0].id != orig[i].id);
                assert(orig[i0].token@ != orig[i].token@);
            }
        }
        lemma_filter_congruence(
            orig,
            |t: Token| t.id != doc.id,
            |t: Token| t.token@ != refresh_token@,
        );
    }
    Ok(())
}

/// Redeem a refresh token: the presented record is deleted first (rotation —
/// the token is single-use and permanently consumed even if the re-issuance
/// then fails), then a brand-new pair is issued and its refresh half
/// persisted. An unknown, revoked or orphaned token fails `Unauthorized`.
pub fn refresh_auth(
    users: &UserRepository,
    tokens: &mut TokenRepository,
    settings: &TokenSettings,
    refresh_token: &str,
    now: u64,
) -> (r: Result<TokenResponse, AppError>)
    requires
        old(tokens).wf(),
    ensures
        final(tokens).wf(),
        ({
            let found = spec_find_active(old(tokens).records@, refresh_token@);
            let remaining = old(tokens).records@.filter(|t: Token| t.token@ != refresh_token@);
            &&& (found is None ==> r == Err::<TokenResponse, AppError>(AppError::Unauthorized)
                && *final(tokens) == *old(tokens))
            &&& (found matches Some(doc) ==> ({
                let mu = spec_find_id(users.users@, doc.user_id);
                &&& (mu is None ==> r == Err::<TokenResponse, AppError>(AppError::Unauthorized)
                    && *final(tokens) == *old(tokens))
                &&& (mu matches Some(u) ==> ({
                    let fresh = !spec_has_token(remaining, refresh_token_rep(u.id, *settings, now))
                        && old(tokens).next_id < u64::MAX;
                    &&& (spec_no_overflow(*settings, now) && fresh ==> ({
                        let rec = final(tokens).records@.last();
                        &&& r is Ok
                        &&& spec_pair_ok(r.unwrap(), u.id, *settings, now)
                        &&& final(tokens).records@ == remaining.push(rec)
                        &&& rec.token@ == refresh_token_rep(u.id, *settings, now)
                        &&& rec.user_id == u.id
                        &&& rec.token_type == TokenType::Refresh
                        &&& rec.expires_at == now + REFRESH_RECORD_TTL_SECS
                        &&& !rec.blacklisted
                    }))
                    &&& (!(spec_no_overflow(*settings, now) && fresh) ==> r == Err::<
                        TokenResponse,
                        AppError,
                    >(AppError::InternalServerError) && final(tokens).records@ == remaining
                        && final(tokens).next_id == old(tokens).next_id)
                }))
            }))
        }),
{
    let doc = match tokens.find_by_token(refresh_token) {
        Some(d) => d,
        None => {
            return Err(AppError::Unauthorized);
        },
    };
    let user = match users.find_by_id(doc.user_id) {
        Some(u) => u,
        None => {
            return Err(AppError::Unauthorized);
        },
    };
    let ghost orig = tokens.records@;
    tokens.delete(doc.id);
    proof {
        lemma_find_active_props(orig, refresh_token@);
        let i0 = choose|i0: int|
            0 <= i0 < orig.len() && orig[i0] == doc && doc.token@ == refresh_token@
                && !doc.blacklisted;
        assert forall|i: int|
            0 <= i < orig.len() implies (((#[trigger] orig[i]).id != doc.id) <==> (orig[i].token@
            != refresh_token@)) by {
            if i < i0 {
                assert(orig[i].id != orig[i0].id);
                assert(orig[i].token@ != orig[i0].token@);
            } else if i > i0 {
                assert(orig[i0].id != orig[i].id);
                assert(orig[i0].token@ != orig[i].token@);
            }
        }
        lemma_filter_congruence(
            orig,
            |t: Token| t.id != doc.id,
            |t: Token| t.token@ != refresh_token@,
        );
    }
    let auth_tokens = match create_auth_tokens(user.id, settings, now) {
        Ok(t) => t,
        Err(_) => {
            return Err(AppError::InternalServerError);
        },
    };
    if REFRESH_RECORD_TTL_SECS > u64::MAX - now {
        return Err(AppError::InternalServerError);
    }
    let expires_at = now + REFRESH_RECORD_TTL_SECS;
    match tokens.create(
        auth_tokens.refresh_token.token.as_str(),
        user.id,
        expires_at,
        TokenType::Refresh,
    ) {
        Ok(_) => {},
        Err(_) => {
            return Err(AppError::InternalServerError);
        },
    }
    Ok(auth_tokens)
}

} // verus!
