use auth_core::auth_usecase::{create_auth_tokens, create_token};
use auth_core::codec::{sign_token, verify_token};
use auth_core::config::{AppConfig, TokenSettings, now_seconds};
use auth_core::error::AppError;
use auth_core::middleware::{admin_only, auth, extract_bearer};
use auth_core::numeral::{format_u64, parse_u64};
use auth_core::token_model::{TokenClaims, TokenKind};
use auth_core::user_model::{Role, User};
use auth_core::user_repository::UserRepository;

fn settings() -> TokenSettings {
    TokenSettings {
        secret: String::from("test-secret-key"),
        access_ttl: 900,
        refresh_ttl: 604800,
    }
}

fn config(access: &str, refresh: &str) -> AppConfig {
    AppConfig {
        server_host: String::from("127.0.0.1"),
        server_port: 8000,
        database_url: String::from("sqlite::memory:"),
        jwt_secret: String::from("test-secret-key"),
        jwt_access_token_expires_in: String::from(access),
        jwt_refresh_token_expires_in: String::from(refresh),
    }
}

#[test]
fn signed_token_round_trips() {
    let claims = TokenClaims { sub: 42, iat: 1000, exp: 2000, token_type: TokenKind::Access };
    let token = sign_token(&claims, "k");
    let back = verify_token(&token, "k", TokenKind::Access, 1500).unwrap();
    assert_eq!(back.sub, 42);
    assert_eq!(back.iat, 1000);
    assert_eq!(back.exp, 2000);
    assert!(matches!(back.token_type, TokenKind::Access));
}

#[test]
fn kind_tags_are_isolated_both_ways() {
    let s = settings();
    let pair = create_auth_tokens(7, &s, 1_000_000).unwrap();
    // A refresh token on the access path fails.
    let r = verify_token(&pair.refresh_token.token, "test-secret-key", TokenKind::Access, 1_000_001);
    assert!(matches!(r, Err(AppError::Unauthorized)));
    // An access token on the refresh path fails.
    let r = verify_token(&pair.access_token.token, "test-secret-key", TokenKind::Refresh, 1_000_001);
    assert!(matches!(r, Err(AppError::Unauthorized)));
    // Each passes on its own path.
    assert!(verify_token(&pair.access_token.token, "test-secret-key", TokenKind::Access, 1_000_001).is_ok());
    assert!(verify_token(&pair.refresh_token.token, "test-secret-key", TokenKind::Refresh, 1_000_001).is_ok());
}

#[test]
fn tampered_and_foreign_tokens_fail() {
    let claims = TokenClaims { sub: 5, iat: 1000, exp: 2000, token_type: TokenKind::Access };
    let token = sign_token(&claims, "k");
    // Flip the first signature character.
    let mut tampered: Vec<char> = token.chars().collect();
    tampered[0] = if tampered[0] == 'A' { 'B' } else { 'A' };
    let tampered: String = tampered.into_iter().collect();
    assert!(verify_token(&tampered, "k", TokenKind::Access, 1500).is_err());
    // A token signed under another secret fails.
    assert!(verify_token(&token, "other", TokenKind::Access, 1500).is_err());
    // Garbage fails.
    assert!(verify_token("not-a-token", "k", TokenKind::Access, 1500).is_err());
    assert!(verify_token("", "k", TokenKind::Access, 1500).is_err());
    assert!(verify_token("a.b.c.d.e", "k", TokenKind::Access, 1500).is_err());
}

#[test]
fn expired_token_fails_verification() {
    let claims = TokenClaims { sub: 5, iat: 1000, exp: 2000, token_type: TokenKind::Access };
    let token = sign_token(&claims, "k");
    // At the expiry second the token is already dead.
    assert!(verify_token(&token, "k", TokenKind::Access, 2000).is_err());
    assert!(verify_token(&token, "k", TokenKind::Access, 3000).is_err());
    assert!(verify_token(&token, "k", TokenKind::Access, 1999).is_ok());
}

#[test]
fn ttl_is_exact_for_both_halves() {
    let s = settings();
    let now = 1_000_000;
    let pair = create_auth_tokens(9, &s, now).unwrap();
    let a = verify_token(&pair.access_token.token, "test-secret-key", TokenKind::Access, now + 1)
        .unwrap();
    assert_eq!(a.exp - a.iat, 900);
    let f = verify_token(&pair.refresh_token.token, "test-secret-key", TokenKind::Refresh, now + 1)
        .unwrap();
    assert_eq!(f.exp - f.iat, 604800);
    assert_eq!(pair.access_token.expires_in, now + 900);
    assert_eq!(pair.refresh_token.expires_in, now + 604800);
}

#[test]
fn create_token_rejects_overflowing_expiry() {
    let r = create_token(1, "k", 10, TokenKind::Access, u64::MAX - 5);
    assert!(matches!(r, Err(AppError::InternalServerError)));
}

#[test]
fn settings_come_from_humantime_durations() {
    let s = TokenSettings::from_config(&config("15m", "7d")).unwrap();
    assert_eq!(s.access_ttl, 900);
    assert_eq!(s.refresh_ttl, 604800);
    assert_eq!(s.secret, "test-secret-key");
    let bad = TokenSettings::from_config(&config("soon", "7d"));
    assert!(matches!(bad, Err(AppError::InternalServerError)));
    let bad = TokenSettings::from_config(&config("15m", ""));
    assert!(matches!(bad, Err(AppError::InternalServerError)));
}

#[test]
fn clock_reads_a_plausible_time() {
    // 2023-01-01 is long past; a sane clock is far above it.
    assert!(now_seconds() > 1_672_531_200);
}

fn stored_user(id: u64, role: Role) -> User {
    User {
        id,
        name: String::from("Ann"),
        email: String::from("ann@x.com"),
        password: String::from("irrelevant"),
        role,
        is_email_verified: false,
        created_at: 0,
        updated_at: 0,
    }
}

#[test]
fn auth_gate_accepts_bearer_and_loads_identity() {
    let mut users = UserRepository::new();
    users.users.push(stored_user(3, Role::User));
    users.next_id = 4;
    let s = settings();
    let d = create_token(3, "test-secret-key", 900, TokenKind::Access, 1_000_000).unwrap();
    let header = format!("Bearer {}", d.token);
    let u = auth(&users, &s, Some(&header), 1_000_010).unwrap();
    assert_eq!(u.id, 3);
    assert_eq!(u.email, "ann@x.com");
}

#[test]
fn auth_gate_rejects_expired_missing_and_malformed() {
    let mut users = UserRepository::new();
    users.users.push(stored_user(3, Role::User));
    users.next_id = 4;
    let s = settings();
    // Expired access token: exp lies in the past of the presented `now`.
    let d = create_token(3, "test-secret-key", 900, TokenKind::Access, 1_000_000).unwrap();
    let header = format!("Bearer {}", d.token);
    let r = auth(&users, &s, Some(&header), 1_000_900);
    assert!(matches!(r, Err(AppError::Unauthorized)));
    // Missing header.
    assert!(matches!(auth(&users, &s, None, 1_000_010), Err(AppError::Unauthorized)));
    // Wrong scheme.
    let r = auth(&users, &s, Some(&format!("Basic {}", d.token)), 1_000_010);
    assert!(matches!(r, Err(AppError::Unauthorized)));
    // A refresh token presented as the access token.
    let rd = create_token(3, "test-secret-key", 900, TokenKind::Refresh, 1_000_000).unwrap();
    let r = auth(&users, &s, Some(&format!("Bearer {}", rd.token)), 1_000_010);
    assert!(matches!(r, Err(AppError::Unauthorized)));
}

#[test]
fn auth_gate_flags_vanished_identity() {
    let users = UserRepository::new();
    let s = settings();
    let d = create_token(3, "test-secret-key", 900, TokenKind::Access, 1_000_000).unwrap();
    let r = auth(&users, &s, Some(&format!("Bearer {}", d.token)), 1_000_010);
    assert!(matches!(r, Err(AppError::NotFound)));
}

#[test]
fn bearer_extraction() {
    assert_eq!(extract_bearer(Some("Bearer abc")), Some("abc"));
    assert_eq!(extract_bearer(Some("Bearer ")), Some(""));
    assert_eq!(extract_bearer(Some("bearer abc")), None);
    assert_eq!(extract_bearer(Some("abc")), None);
    assert_eq!(extract_bearer(None), None);
}

#[test]
fn admin_gate_orders_roles() {
    let admin = stored_user(1, Role::Admin);
    let user = stored_user(2, Role::User);
    assert!(admin_only(&admin).is_ok());
    assert!(matches!(admin_only(&user), Err(AppError::Forbidden)));
}

#[test]
fn decimal_numerals_round_trip() {
    assert_eq!(format_u64(0), "0");
    assert_eq!(format_u64(907), "907");
    assert_eq!(format_u64(u64::MAX), "18446744073709551615");
    assert_eq!(parse_u64("0"), Some(0));
    assert_eq!(parse_u64("907"), Some(907));
    assert_eq!(parse_u64("18446744073709551615"), Some(u64::MAX));
    assert_eq!(parse_u64("18446744073709551616"), None);
    assert_eq!(parse_u64(""), None);
    assert_eq!(parse_u64("12a"), None);
    assert_eq!(parse_u64("-1"), None);
}
