//! The session-lifecycle laws, stated over the same spec functions the
//! executable contracts use, so each composes directly with the `ensures` of
//! the functions it speaks about.

use vstd::prelude::*;
use crate::auth_usecase::{
    access_token_rep, refresh_token_rep, spec_claims,
};
use crate::codec::{lemma_decode_signed, spec_decode, token_rep};
use crate::config::TokenSettings;
use crate::error::AppError;
use crate::middleware::spec_auth;
use crate::seq_util::lemma_filter_membership;
use crate::token_model::{TokenClaims, TokenKind};
use crate::token_repository::{Token, lemma_no_token_no_active, spec_find_active, spec_has_token};
use crate::user_model::User;
use crate::user_repository::spec_find_email;

verus! {

/// After a registration on a free email, a login with that email finds
/// exactly the fresh identity. Together with the credential fact of
/// `register` (the stored hash verifies the registered password) and the
/// contract of `login`, the login is then obliged to succeed and to issue a
/// pair whose access token is signed for the new identity's id.
pub proof fn lemma_register_then_login_finds_user(users0: Seq<User>, u: User, email: Seq<char>)
    requires
        forall|i: int| 0 <= i < users0.len() ==> (#[trigger] users0[i]).email@ != email,
        u.email@ == email,
    ensures
        spec_find_email(users0.push(u), email) == Some(u),
    decreases users0.len(),
{
    if users0.len() == 0 {
        assert(users0.push(u)[0] == u);
    } else {
        assert(users0.push(u)[0] == users0[0]);
        let d = users0.drop_first();
        assert forall|i: int| 0 <= i < d.len() implies (#[trigger] d[i]).email@ != email by {
            assert(d[i] == users0[i + 1]);
        }
        lemma_register_then_login_finds_user(d, u, email);
        assert(users0.push(u).drop_first() =~= d.push(u));
    }
}

/// The access token of a pair issued at `now` for `user_id` verifies, on the
/// access path and before its expiry, to claims whose subject is exactly
/// `user_id`.
pub proof fn lemma_pair_access_subject(
    user_id: u64,
    settings: TokenSettings,
    now: u64,
    later: u64,
)
    requires
        now + settings.access_ttl <= u64::MAX,
        later < now + settings.access_ttl,
    ensures
        ({
            let d = spec_decode(
                access_token_rep(user_id, settings, now),
                settings.secret@,
                TokenKind::Access,
                later,
            );
            d is Some && d.unwrap().sub == user_id
        }),
{
    let c = spec_claims(user_id, TokenKind::Access, now, settings.access_ttl);
    lemma_decode_signed(c, settings.secret@, TokenKind::Access, later);
}

/// A refresh token is single-use: after a successful redemption whose newly
/// issued refresh token differs from the presented one, the store holds no
/// live record for the presented token, so a second redemption of it is
/// obliged (by `refresh_auth`'s contract) to fail `Unauthorized`. The one
/// input left out by the `requires`: a rotation that reproduces the very
/// same token string (same subject, same second, same lifetime) re-arms it.
pub proof fn lemma_refresh_single_use(
    records0: Seq<Token>,
    records1: Seq<Token>,
    nrec: Token,
    rt: Seq<char>,
)
    requires
        records1 == records0.filter(|t: Token| t.token@ != rt).push(nrec),
        nrec.token@ != rt,
    ensures
        spec_find_active(records1, rt) is None,
{
    let fs = records0.filter(|t: Token| t.token@ != rt);
    assert forall|i: int| 0 <= i < records1.len() implies (#[trigger] records1[i]).token@
        != rt by {
        if i < fs.len() {
            assert(records1[i] == fs[i]);
            lemma_filter_membership(records0, |t: Token| t.token@ != rt, fs[i]);
        } else {
            assert(records1[i] == nrec);
        }
    }
    lemma_no_token_no_active(records1, rt);
}

/// A revoked session stays revoked: after a logout deleted the record of a
/// refresh token, the store holds no live record for it, so a redemption of
/// that token is obliged (by `refresh_auth`'s contract) to fail
/// `Unauthorized`.
pub proof fn lemma_logout_then_refresh_fails(
    records0: Seq<Token>,
    records1: Seq<Token>,
    rt: Seq<char>,
)
    requires
        records1 == records0.filter(|t: Token| t.token@ != rt),
    ensures
        spec_find_active(records1, rt) is None,
{
    assert forall|i: int| 0 <= i < records1.len() implies (#[trigger] records1[i]).token@
        != rt by {
        lemma_filter_membership(records0, |t: Token| t.token@ != rt, records1[i]);
    }
    lemma_no_token_no_active(records1, rt);
}

/// Kind-tag isolation: a signed token presented to the verification path of
/// any kind other than its own is rejected, whatever the time.
pub proof fn lemma_kind_isolation(c: TokenClaims, secret: Seq<char>, k: TokenKind, now: u64)
    requires
        k != c.token_type,
    ensures
        spec_decode(token_rep(c, secret), secret, k, now) is None,
{
    lemma_decode_signed(c, secret, k, now);
}

/// An expired token is rejected on its own kind's verification path.
pub proof fn lemma_expired_token_rejected(c: TokenClaims, secret: Seq<char>, now: u64)
    requires
        now >= c.exp,
    ensures
        spec_decode(token_rep(c, secret), secret, c.token_type, now) is None,
{
    lemma_decode_signed(c, secret, c.token_type, now);
}

/// An expired access token presented to the authentication gate is turned
/// away `Unauthorized` whatever the identity store holds: the request it
/// carried never reaches a handler.
pub proof fn lemma_gate_rejects_expired(
    users: Seq<User>,
    settings: TokenSettings,
    c: TokenClaims,
    now: u64,
)
    requires
        now >= c.exp,
        c.token_type == TokenKind::Access,
    ensures
        spec_auth(
            users,
            settings,
            Some("Bearer "@ + token_rep(c, settings.secret@)),
            now,
        ) == Err::<User, AppError>(AppError::Unauthorized),
{
    reveal_strlit("Bearer ");
    assert("Bearer "@.len() == 7);
    let h = "Bearer "@ + token_rep(c, settings.secret@);
    assert(h.take(7) =~= "Bearer "@);
    assert(h.skip(7) =~= token_rep(c, settings.secret@));
    lemma_decode_signed(c, settings.secret@, TokenKind::Access, now);
}

/// The lifetime of each issued token is exact: `exp - iat` equals the
/// configured lifetime of its half of the pair, with no drift, because both
/// stamps come from the one `now` of the issuance.
pub proof fn lemma_issued_ttl_exact(user_id: u64, settings: TokenSettings, now: u64)
    requires
        now + settings.access_ttl <= u64::MAX,
        now + settings.refresh_ttl <= u64::MAX,
    ensures
        ({
            let a = spec_claims(user_id, TokenKind::Access, now, settings.access_ttl);
            a.exp - a.iat == settings.access_ttl
        }),
        ({
            let f = spec_claims(user_id, TokenKind::Refresh, now, settings.refresh_ttl);
            f.exp - f.iat == settings.refresh_ttl
        }),
{
}

/// The two halves of `access_token_rep` / `refresh_token_rep` decode, before
/// expiry and on their own paths, to claims carrying exactly the configured
/// lifetimes.
pub proof fn lemma_pair_ttl_observable(
    user_id: u64,
    settings: TokenSettings,
    now: u64,
    later: u64,
)
    requires
        now + settings.access_ttl <= u64::MAX,
        now + settings.refresh_ttl <= u64::MAX,
        later < now + settings.access_ttl,
        later < now + settings.refresh_ttl,
    ensures
        ({
            let d = spec_decode(
                access_token_rep(user_id, settings, now),
                settings.secret@,
                TokenKind::Access,
                later,
            );
            d is Some && d.unwrap().exp - d.unwrap().iat == settings.access_ttl
        }),
        ({
            let d = spec_decode(
                refresh_token_rep(user_id, settings, now),
                settings.secret@,
                TokenKind::Refresh,
                later,
            );
            d is Some && d.unwrap().exp - d.unwrap().iat == settings.refresh_ttl
        }),
{
    lemma_decode_signed(
        spec_claims(user_id, TokenKind::Access, now, settings.access_ttl),
        settings.secret@,
        TokenKind::Access,
        later,
    );
    lemma_decode_signed(
        spec_claims(user_id, TokenKind::Refresh, now, settings.refresh_ttl),
        settings.secret@,
        TokenKind::Refresh,
        later,
    );
}

} // verus!
