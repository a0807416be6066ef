//! Process-wide configuration: raw values as loaded at startup, and the
//! validated token settings derived from them once.

use vstd::prelude::*;
use crate::error::AppError;

verus! {

/// Raw configuration values, loaded once at process start.
pub struct AppConfig {
    pub server_host: String,
    pub server_port: u16,
    pub database_url: String,
    pub jwt_secret: String,
    pub jwt_access_token_expires_in: String,
    pub jwt_refresh_token_expires_in: String,
}

/// What `humantime` parses a duration string to, in whole seconds; `None`
/// when the string is not a valid human-readable duration.
pub uninterp spec fn parsed_duration_secs(s: Seq<char>) -> Option<u64>;

/// Relies on `humantime::parse_duration`: parses a human-readable duration
/// such as `"15m"` or `"7d"`, a pure function of the string.
#[verifier::external_body]
fn parse_duration_secs(s: &str) -> (r: Option<u64>)
    ensures
        r == parsed_duration_secs(s@),
{
    humantime::parse_duration(s).ok().map(|d| d.as_secs())
}

/// Relies on `chrono::Utc::now`: the current Unix time in seconds. Nothing
/// can be promised of the clock's value.
#[verifier::external_body]
fn now_timestamp() -> i64 {
    chrono::Utc::now().timestamp()
}

/// The current Unix time in whole seconds, clamped to zero for clocks set
/// before the epoch. No contract can pin the clock's value; callers treat it
/// as an arbitrary input.
pub fn now_seconds() -> u64 {
    let t = now_timestamp();
    if t < 0 {
        0
    } else {
        t as u64
    }
}

/// The validated signing settings: a malformed configured duration is a
/// startup-time fatal, never a per-request failure.
pub struct TokenSettings {
    pub secret: String,
    pub access_ttl: u64,
    pub refresh_ttl: u64,
}

impl TokenSettings {
    /// Parse and validate the token-related configuration once.
    pub fn from_config(config: &AppConfig) -> (r: Result<TokenSettings, AppError>)
        ensures
            r is Ok <==> (parsed_duration_secs(config.jwt_access_token_expires_in@) is Some
                && parsed_duration_secs(config.jwt_refresh_token_expires_in@) is Some),
            r is Ok ==> {
                let settings = r.unwrap();
                &&& settings.secret@ == config.jwt_secret@
                &&& Some(settings.access_ttl) == parsed_duration_secs(
                    config.jwt_access_token_expires_in@,
                )
                &&& Some(settings.refresh_ttl) == parsed_duration_secs(
                    config.jwt_refresh_token_expires_in@,
                )
            },
            r is Err ==> r == Err::<TokenSettings, AppError>(AppError::InternalServerError),
    {
        let access_ttl = match parse_duration_secs(config.jwt_access_token_expires_in.as_str()) {
            Some(v) => v,
            None => {
                return Err(AppError::InternalServerError);
            },
        };
        let refresh_ttl = match parse_duration_secs(config.jwt_refresh_token_expires_in.as_str()) {
            Some(v) => v,
            None => {
                return Err(AppError::InternalServerError);
            },
        };
        Ok(TokenSettings { secret: config.jwt_secret.clone(), access_ttl, refresh_ttl })
    }
}

} // verus!
