use auth_core::auth_usecase::{login, logout, refresh_auth, register};
use auth_core::config::TokenSettings;
use auth_core::error::AppError;
use auth_core::schemas::{LoginSchema, RegisterSchema};
use auth_core::token_repository::TokenRepository;
use auth_core::user_model::Role;
use auth_core::user_repository::UserRepository;

fn settings() -> TokenSettings {
    TokenSettings {
        secret: String::from("test-secret-key"),
        access_ttl: 900,
        refresh_ttl: 604800,
    }
}

fn ann() -> RegisterSchema {
    RegisterSchema {
        name: String::from("Ann"),
        email: String::from("ann@x.com"),
        password: String::from("longenough1"),
    }
}

#[test]
fn register_returns_projection_and_pair() {
    let mut users = UserRepository::new();
    let mut tokens = TokenRepository::new();
    let s = settings();
    let (user, pair) = register(&mut users, &mut tokens, &s, &ann(), 1_000_000).unwrap();
    assert_eq!(user.name, "Ann");
    assert_eq!(user.email, "ann@x.com");
    assert!(matches!(user.role, Role::User));
    assert!(!user.is_email_verified);
    assert_eq!(user.created_at, 1_000_000);
    assert!(!pair.access_token.token.is_empty());
    assert!(!pair.refresh_token.token.is_empty());
    assert_ne!(pair.access_token.token, pair.refresh_token.token);
    assert_eq!(pair.access_token.expires_in, 1_000_900);
    assert_eq!(pair.refresh_token.expires_in, 1_604_800);
    // One refresh record was persisted, for thirty days.
    assert_eq!(tokens.records.len(), 1);
    assert_eq!(tokens.records[0].token, pair.refresh_token.token);
    assert_eq!(tokens.records[0].user_id, user.id);
    assert_eq!(tokens.records[0].expires_at, 1_000_000 + 2_592_000);
}

#[test]
fn register_same_email_twice_is_conflict() {
    let mut users = UserRepository::new();
    let mut tokens = TokenRepository::new();
    let s = settings();
    register(&mut users, &mut tokens, &s, &ann(), 1_000_000).unwrap();
    let second = register(&mut users, &mut tokens, &s, &ann(), 1_000_001);
    assert!(matches!(second, Err(AppError::Conflict)));
    assert_eq!(users.users.len(), 1);
}

#[test]
fn register_then_login_succeeds_with_same_subject() {
    let mut users = UserRepository::new();
    let mut tokens = TokenRepository::new();
    let s = settings();
    let (user, _) = register(&mut users, &mut tokens, &s, &ann(), 1_000_000).unwrap();
    let data = LoginSchema {
        email: String::from("ann@x.com"),
        password: String::from("longenough1"),
    };
    let (logged_in, pair) = login(&users, &mut tokens, &s, &data, 1_000_010).unwrap();
    assert_eq!(logged_in.id, user.id);
    // The access token's subject is the registered identity's id.
    let claims = auth_core::codec::verify_token(
        &pair.access_token.token,
        "test-secret-key",
        auth_core::token_model::TokenKind::Access,
        1_000_020,
    )
    .unwrap();
    assert_eq!(claims.sub, user.id);
    assert_eq!(claims.iat, 1_000_010);
    assert_eq!(claims.exp, 1_000_910);
}

#[test]
fn login_wrong_password_and_unknown_email_fail_alike() {
    let mut users = UserRepository::new();
    let mut tokens = TokenRepository::new();
    let s = settings();
    register(&mut users, &mut tokens, &s, &ann(), 1_000_000).unwrap();
    let wrong_password = login(
        &users,
        &mut tokens,
        &s,
        &LoginSchema {
            email: String::from("ann@x.com"),
            password: String::from("not-her-password"),
        },
        1_000_010,
    );
    let unknown_email = login(
        &users,
        &mut tokens,
        &s,
        &LoginSchema {
            email: String::from("bob@x.com"),
            password: String::from("longenough1"),
        },
        1_000_010,
    );
    let e1 = wrong_password.err().unwrap();
    let e2 = unknown_email.err().unwrap();
    assert!(matches!(e1, AppError::Unauthorized));
    assert!(matches!(e2, AppError::Unauthorized));
    // Identical error text: no user enumeration.
    assert_eq!(e1.message(), e2.message());
    assert_eq!(e1.into_response().code, e2.into_response().code);
}

#[test]
fn refresh_token_is_single_use() {
    let mut users = UserRepository::new();
    let mut tokens = TokenRepository::new();
    let s = settings();
    let (_, pair) = register(&mut users, &mut tokens, &s, &ann(), 1_000_000).unwrap();
    let presented = pair.refresh_token.token.clone();
    let new_pair = refresh_auth(&users, &mut tokens, &s, &presented, 1_000_001).unwrap();
    assert_ne!(new_pair.refresh_token.token, presented);
    // The second redemption of the consumed token must fail, immediately.
    let replay = refresh_auth(&users, &mut tokens, &s, &presented, 1_000_001);
    assert!(matches!(replay, Err(AppError::Unauthorized)));
    // The replacement token still works.
    let rotated = refresh_auth(&users, &mut tokens, &s, &new_pair.refresh_token.token, 1_000_002);
    assert!(rotated.is_ok());
}

#[test]
fn logout_then_refresh_fails() {
    let mut users = UserRepository::new();
    let mut tokens = TokenRepository::new();
    let s = settings();
    let (_, pair) = register(&mut users, &mut tokens, &s, &ann(), 1_000_000).unwrap();
    let rt = pair.refresh_token.token.clone();
    logout(&mut tokens, &rt).unwrap();
    let replay = refresh_auth(&users, &mut tokens, &s, &rt, 1_000_001);
    assert!(matches!(replay, Err(AppError::Unauthorized)));
    // Logging out twice: the record is gone.
    let again = logout(&mut tokens, &rt);
    assert!(matches!(again, Err(AppError::NotFound)));
}

#[test]
fn logout_unknown_token_is_not_found() {
    let mut tokens = TokenRepository::new();
    let r = logout(&mut tokens, "no-such-token");
    assert!(matches!(r, Err(AppError::NotFound)));
}

#[test]
fn concurrent_sessions_are_independent() {
    let mut users = UserRepository::new();
    let mut tokens = TokenRepository::new();
    let s = settings();
    register(&mut users, &mut tokens, &s, &ann(), 1_000_000).unwrap();
    let data = LoginSchema {
        email: String::from("ann@x.com"),
        password: String::from("longenough1"),
    };
    // Two logins at different seconds: two independent sessions.
    let (_, p1) = login(&users, &mut tokens, &s, &data, 1_000_010).unwrap();
    let (_, p2) = login(&users, &mut tokens, &s, &data, 1_000_011).unwrap();
    assert_ne!(p1.refresh_token.token, p2.refresh_token.token);
    assert_eq!(tokens.records.len(), 3);
    // Revoking one session leaves the other alive.
    logout(&mut tokens, &p1.refresh_token.token).unwrap();
    assert!(refresh_auth(&users, &mut tokens, &s, &p2.refresh_token.token, 1_000_012).is_ok());
}
