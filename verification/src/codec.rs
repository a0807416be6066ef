//! The token codec: signing claims into an opaque token string and verifying
//! such a string back into claims.
//!
//! A token is `sig.kind.sub.iat.exp`: the base64url HMAC tag of the payload,
//! then the payload itself — the kind tag as one character and the three
//! claim numbers as decimal numerals, all dot-separated. The signature is the
//! only part computed by an outside crate; the payload encoding, the parsing
//! and every acceptance check are verified here. Verification rejects a token
//! whose signature does not match, whose kind tag differs from the kind the
//! caller expects, or whose expiry is not in the future.

use vstd::prelude::*;
use crate::error::AppError;
use crate::numeral::{
    all_digits, dec_rep, dec_val, is_digit, lemma_dec_rep_wf, lemma_dec_val_rep, format_u64,
    parse_u64, push_char,
};
use crate::token_model::{TokenClaims, TokenKind};

verus! {

/// The base64url HMAC-SHA256 tag of `msg` under `secret`, as
/// `jsonwebtoken`'s HS256 signing computes it. A pure function of its
/// arguments: the same message and secret give the same tag on every run.
pub uninterp spec fn hmac_sig(msg: Seq<char>, secret: Seq<char>) -> Seq<char>;

#[verifier::external_type_specification]
#[verifier::external_body]
pub struct ExJwtError(jsonwebtoken::errors::Error);

/// Relies on `jsonwebtoken::crypto::sign` with `Algorithm::HS256` and a key
/// from `EncodingKey::from_secret`: the HMAC path accepts a secret of any
/// length and cannot fail (the signer factory only rejects non-HMAC key
/// families, and HMAC signing itself is infallible), and it returns the
/// base64url (no padding) encoding of the HMAC-SHA256 tag of the message.
#[verifier::external_body]
fn hmac_sign(message: &str, secret: &str) -> (r: Result<String, jsonwebtoken::errors::Error>)
    ensures
        r is Ok,
        r is Ok ==> r.unwrap()@ == hmac_sig(message@, secret@),
{
    let key = jsonwebtoken::EncodingKey::from_secret(secret.as_bytes());
    jsonwebtoken::crypto::sign(message.as_bytes(), &key, jsonwebtoken::Algorithm::HS256)
}

/// Relies on `jsonwebtoken::crypto::verify` with `Algorithm::HS256` and a key
/// from `DecodingKey::from_secret`: it recomputes the HMAC tag of the message
/// and compares in constant time. It errs only when the presented signature
/// is not valid base64url; the strict (no trailing bits, no padding) decoding
/// makes the byte comparison equivalent to comparing the base64url strings,
/// so the result is exactly whether the presented signature equals the tag.
#[verifier::external_body]
fn hmac_verify(signature: &str, message: &str, secret: &str) -> (r: Result<
    bool,
    jsonwebtoken::errors::Error,
>)
    ensures
        r is Ok ==> (r.unwrap() <==> signature@ == hmac_sig(message@, secret@)),
        signature@ == hmac_sig(message@, secret@) ==> r is Ok,
{
    let key = jsonwebtoken::DecodingKey::from_secret(secret.as_bytes());
    jsonwebtoken::crypto::verify(signature, message.as_bytes(), &key, jsonwebtoken::Algorithm::HS256)
}

/// The one-character tag of a token kind.
pub open spec fn kind_char(k: TokenKind) -> char {
    match k {
        TokenKind::Access => 'a',
        TokenKind::Refresh => 'r',
    }
}

/// The payload of a token: kind tag and the three claim numbers, dot-separated.
pub open spec fn payload_rep(c: TokenClaims) -> Seq<char> {
    seq![kind_char(c.token_type)] + seq!['.'] + dec_rep(c.sub as nat) + seq!['.'] + dec_rep(
        c.iat as nat,
    ) + seq!['.'] + dec_rep(c.exp as nat)
}

/// The full token string for `c` under `secret`.
pub open spec fn token_rep(c: TokenClaims, secret: Seq<char>) -> Seq<char> {
    hmac_sig(payload_rep(c), secret) + seq!['.'] + payload_rep(c)
}

fn kind_to_char(k: TokenKind) -> (c: char)
    ensures
        c == kind_char(k),
{
    match k {
        TokenKind::Access => 'a',
        TokenKind::Refresh => 'r',
    }
}

/// Encode the payload of `claims`.
fn encode_payload(claims: &TokenClaims) -> (p: String)
    ensures
        p@ == payload_rep(*claims),
{
    let mut p = String::new();
    push_char(&mut p, kind_to_char(claims.token_type));
    push_char(&mut p, '.');
    let sub_s = format_u64(claims.sub);
    p.append(sub_s.as_str());
    push_char(&mut p, '.');
    let iat_s = format_u64(claims.iat);
    p.append(iat_s.as_str());
    push_char(&mut p, '.');
    let exp_s = format_u64(claims.exp);
    p.append(exp_s.as_str());
    proof {
        assert(p@ =~= payload_rep(*claims));
    }
    p
}

pub open spec fn no_dot(s: Seq<char>) -> bool {
    forall|i: int| 0 <= i < s.len() ==> s[i] != '.'
}

/// The index of the last `'.'` strictly before `before`, or `-1`.
pub open spec fn find_dot_before(s: Seq<char>, before: int) -> int
    decreases before,
{
    if before <= 0 {
        -1
    } else if s[before - 1] == '.' {
        before - 1
    } else {
        find_dot_before(s, before - 1)
    }
}

/// What verification accepts: a token decodes under `secret` for kind
/// `expected` at time `now` exactly when its last four dots split it into a
/// signature that matches the payload's HMAC tag, the expected kind tag, and
/// three in-range numerals of which the expiry is still in the future.
pub open spec fn spec_decode(
    t: Seq<char>,
    secret: Seq<char>,
    expected: TokenKind,
    now: u64,
) -> Option<TokenClaims> {
    let j4 = find_dot_before(t, t.len() as int);
    let j3 = find_dot_before(t, j4);
    let j2 = find_dot_before(t, j3);
    let j1 = find_dot_before(t, j2);
    if j1 >= 0 {
        let sig = t.take(j1);
        let payload = t.subrange(j1 + 1, t.len() as int);
        let kind_seg = t.subrange(j1 + 1, j2);
        let sub_seg = t.subrange(j2 + 1, j3);
        let iat_seg = t.subrange(j3 + 1, j4);
        let exp_seg = t.subrange(j4 + 1, t.len() as int);
        if sig == hmac_sig(payload, secret) && kind_seg == seq![kind_char(expected)]
            && sub_seg.len() > 0 && all_digits(sub_seg) && dec_val(sub_seg) <= u64::MAX
            && iat_seg.len() > 0 && all_digits(iat_seg) && dec_val(iat_seg) <= u64::MAX
            && exp_seg.len() > 0 && all_digits(exp_seg) && dec_val(exp_seg) <= u64::MAX && now
            < dec_val(exp_seg) {
            Some(
                TokenClaims {
                    sub: dec_val(sub_seg) as u64,
                    iat: dec_val(iat_seg) as u64,
                    exp: dec_val(exp_seg) as u64,
                    token_type: expected,
                },
            )
        } else {
            None
        }
    } else {
        None
    }
}

/// Find the last `'.'` of `s` strictly before index `before`.
fn find_last_dot(s: &str, before: usize) -> (r: Option<usize>)
    requires
        before <= s@.len(),
    ensures
        match r {
            Some(j) => find_dot_before(s@, before as int) == j && j < before,
            None => find_dot_before(s@, before as int) == -1,
        },
{
    let mut i = before;
    while i > 0
        invariant
            i <= before,
            before <= s@.len(),
            find_dot_before(s@, before as int) == find_dot_before(s@, i as int),
        decreases i,
    {
        let c = s.get_char(i - 1);
        if c == '.' {
            assert(find_dot_before(s@, i as int) == i - 1);
            return Some(i - 1);
        }
        assert(find_dot_before(s@, i as int) == find_dot_before(s@, i as int - 1));
        i = i - 1;
    }
    None
}

/// Verify an opaque token string: check its signature, its kind tag against
/// `expected`, and that it has not expired at `now`; return its claims.
pub fn verify_token(token: &str, secret: &str, expected: TokenKind, now: u64) -> (r: Result<
    TokenClaims,
    AppError,
>)
    ensures
        spec_decode(token@, secret@, expected, now) is Some ==> r == Ok::<TokenClaims, AppError>(
            spec_decode(token@, secret@, expected, now).unwrap(),
        ),
        spec_decode(token@, secret@, expected, now) is None ==> r == Err::<TokenClaims, AppError>(
            AppError::Unauthorized,
        ),
{
    let len = token.unicode_len();
    let j4 = match find_last_dot(token, len) {
        Some(j) => j,
        None => {
            return Err(AppError::Unauthorized);
        },
    };
    let j3 = match find_last_dot(token, j4) {
        Some(j) => j,
        None => {
            return Err(AppError::Unauthorized);
        },
    };
    let j2 = match find_last_dot(token, j3) {
        Some(j) => j,
        None => {
            return Err(AppError::Unauthorized);
        },
    };
    let j1 = match find_last_dot(token, j2) {
        Some(j) => j,
        None => {
            return Err(AppError::Unauthorized);
        },
    };
    // Kind tag: exactly one character, the expected one.
    let kc = kind_to_char(expected);
    if j2 != j1 + 2 {
        proof {
            assert(token@.subrange(j1 as int + 1, j2 as int).len() != 1);
            assert(seq![kind_char(expected)].len() == 1);
        }
        return Err(AppError::Unauthorized);
    }
    if token.get_char(j1 + 1) != kc {
        proof {
            assert(token@.subrange(j1 as int + 1, j2 as int)[0] == token@[j1 as int + 1]);
        }
        return Err(AppError::Unauthorized);
    }
    proof {
        assert(token@.subrange(j1 as int + 1, j2 as int) =~= seq![kind_char(expected)]);
    }
    let sub_v = match parse_u64(token.substring_char(j2 + 1, j3)) {
        Some(v) => v,
        None => {
            return Err(AppError::Unauthorized);
        },
    };
    let iat_v = match parse_u64(token.substring_char(j3 + 1, j4)) {
        Some(v) => v,
        None => {
            return Err(AppError::Unauthorized);
        },
    };
    let exp_v = match parse_u64(token.substring_char(j4 + 1, len)) {
        Some(v) => v,
        None => {
            return Err(AppError::Unauthorized);
        },
    };
    let sig_str = token.substring_char(0, j1);
    let payload_str = token.substring_char(j1 + 1, len);
    let sig_ok = match hmac_verify(sig_str, payload_str, secret) {
        Ok(b) => b,
        Err(_) => false,
    };
    if !sig_ok {
        return Err(AppError::Unauthorized);
    }
    if !(now < exp_v) {
        return Err(AppError::Unauthorized);
    }
    proof {
        assert(token@.take(j1 as int) =~= token@.subrange(0, j1 as int));
    }
    Ok(TokenClaims { sub: sub_v, iat: iat_v, exp: exp_v, token_type: expected })
}

proof fn lemma_digits_no_dot(s: Seq<char>)
    requires
        all_digits(s),
    ensures
        no_dot(s),
{
    assert forall|i: int| 0 <= i < s.len() implies s[i] != '.' by {
        assert(is_digit(s[i]));
        assert('.' as u32 == 46);
    }
}

proof fn lemma_find_dot_in_range(s: Seq<char>, i: int, before: int)
    requires
        0 <= i < before <= s.len(),
        s[i] == '.',
        forall|x: int| i < x < before ==> s[x] != '.',
    ensures
        find_dot_before(s, before) == i,
    decreases before,
{
    if before - 1 > i {
        lemma_find_dot_in_range(s, i, before - 1);
    }
}

/// How the last four dots of a well-formed token split it: the four
/// separators stand exactly where the signature and the three dot-free
/// segments put them, and each segment is recovered intact.
proof fn lemma_token_shape(
    sig: Seq<char>,
    k: Seq<char>,
    s1: Seq<char>,
    s2: Seq<char>,
    s3: Seq<char>,
    t: Seq<char>,
)
    requires
        t == sig + seq!['.'] + k + seq!['.'] + s1 + seq!['.'] + s2 + seq!['.'] + s3,
        no_dot(k),
        no_dot(s1),
        no_dot(s2),
        no_dot(s3),
    ensures
        ({
            let p1 = sig.len() as int;
            let p2 = p1 + 1 + k.len();
            let p3 = p2 + 1 + s1.len();
            let p4 = p3 + 1 + s2.len();
            &&& t.len() == p4 + 1 + s3.len()
            &&& find_dot_before(t, t.len() as int) == p4
            &&& find_dot_before(t, p4) == p3
            &&& find_dot_before(t, p3) == p2
            &&& find_dot_before(t, p2) == p1
            &&& t.take(p1) == sig
            &&& t.subrange(p1 + 1, p2) == k
            &&& t.subrange(p2 + 1, p3) == s1
            &&& t.subrange(p3 + 1, p4) == s2
            &&& t.subrange(p4 + 1, t.len() as int) == s3
            &&& t.subrange(p1 + 1, t.len() as int) == k + seq!['.'] + s1 + seq!['.'] + s2
                + seq!['.'] + s3
        }),
{
    let p1 = sig.len() as int;
    let p2 = p1 + 1 + k.len();
    let p3 = p2 + 1 + s1.len();
    let p4 = p3 + 1 + s2.len();
    assert(t.len() == p4 + 1 + s3.len());
    assert(t[p1] == '.');
    assert(t[p2] == '.');
    assert(t[p3] == '.');
    assert(t[p4] == '.');
    assert(t.take(p1) =~= sig);
    assert(t.subrange(p1 + 1, p2) =~= k);
    assert(t.subrange(p2 + 1, p3) =~= s1);
    assert(t.subrange(p3 + 1, p4) =~= s2);
    assert(t.subrange(p4 + 1, t.len() as int) =~= s3);
    assert(t.subrange(p1 + 1, t.len() as int) =~= k + seq!['.'] + s1 + seq!['.'] + s2 + seq!['.']
        + s3);
    assert forall|x: int| p4 < x < t.len() implies t[x] != '.' by {
        assert(t[x] == s3[x - p4 - 1]);
    }
    lemma_find_dot_in_range(t, p4, t.len() as int);
    assert forall|x: int| p3 < x < p4 implies t[x] != '.' by {
        assert(t[x] == s2[x - p3 - 1]);
    }
    lemma_find_dot_in_range(t, p3, p4);
    assert forall|x: int| p2 < x < p3 implies t[x] != '.' by {
        assert(t[x] == s1[x - p2 - 1]);
    }
    lemma_find_dot_in_range(t, p2, p3);
    assert forall|x: int| p1 < x < p2 implies t[x] != '.' by {
        assert(t[x] == k[x - p1 - 1]);
    }
    lemma_find_dot_in_range(t, p1, p2);
}

/// The codec round trip, kind isolation and expiry in one statement: a token
/// signed for claims `c` decodes to exactly `c` when presented to the
/// verification path for its own kind before it expires; it decodes to
/// nothing on the other kind's verification path, and to nothing once `now`
/// has reached its expiry.
pub proof fn lemma_decode_signed(c: TokenClaims, secret: Seq<char>, expected: TokenKind, now: u64)
    ensures
        c.token_type == expected && now < c.exp ==> spec_decode(
            token_rep(c, secret),
            secret,
            expected,
            now,
        ) == Some(c),
        c.token_type != expected ==> spec_decode(token_rep(c, secret), secret, expected, now)
            is None,
        now >= c.exp ==> spec_decode(token_rep(c, secret), secret, expected, now) is None,
{
    let sig = hmac_sig(payload_rep(c), secret);
    let k = seq![kind_char(c.token_type)];
    let s1 = dec_rep(c.sub as nat);
    let s2 = dec_rep(c.iat as nat);
    let s3 = dec_rep(c.exp as nat);
    lemma_dec_rep_wf(c.sub as nat);
    lemma_dec_rep_wf(c.iat as nat);
    lemma_dec_rep_wf(c.exp as nat);
    lemma_dec_val_rep(c.sub as nat);
    lemma_dec_val_rep(c.iat as nat);
    lemma_dec_val_rep(c.exp as nat);
    lemma_digits_no_dot(s1);
    lemma_digits_no_dot(s2);
    lemma_digits_no_dot(s3);
    let t = token_rep(c, secret);
    assert(payload_rep(c) =~= k + seq!['.'] + s1 + seq!['.'] + s2 + seq!['.'] + s3);
    assert(t =~= sig + seq!['.'] + k + seq!['.'] + s1 + seq!['.'] + s2 + seq!['.'] + s3);
    lemma_token_shape(sig, k, s1, s2, s3, t);
    let p1 = sig.len() as int;
    let p2 = p1 + 1 + k.len();
    assert(t.subrange(p1 + 1, t.len() as int) == payload_rep(c));
    if c.token_type != expected {
        assert(kind_char(c.token_type) != kind_char(expected));
        assert(t.subrange(p1 + 1, p2)[0] == kind_char(c.token_type));
        assert(t.subrange(p1 + 1, p2) != seq![kind_char(expected)]);
    }
}

/// Sign `claims` under `secret` into an opaque token string.
pub fn sign_token(claims: &TokenClaims, secret: &str) -> (token: String)
    ensures
        token@ == token_rep(*claims, secret@),
{
    let payload = encode_payload(claims);
    match hmac_sign(payload.as_str(), secret) {
        Ok(sig) => {
            let mut token = sig;
            push_char(&mut token, '.');
            token.append(payload.as_str());
            proof {
                assert(token@ =~= token_rep(*claims, secret@));
            }
            token
        },
        Err(_) => {
            // Dead branch: HS256 signing with a from_secret key cannot fail.
            proof {
                assert(false);
            }
            String::new()
        },
    }
}

} // verus!
