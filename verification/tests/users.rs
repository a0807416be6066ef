use auth_core::error::AppError;
use auth_core::token_model::TokenType;
use auth_core::token_repository::TokenRepository;
use auth_core::user_model::{FilteredUser, Role, User};
use auth_core::user_repository::{UserQueryOptions, UserRepository};
use auth_core::user_usecase::{create_user, delete_user, get_user_by_id, get_users, update_user};
use auth_core::schemas::{LoginSchema, RegisterSchema};

#[test]
fn roles_parse_and_print() {
    assert!(matches!(Role::try_from("user"), Ok(Role::User)));
    assert!(matches!(Role::try_from("admin"), Ok(Role::Admin)));
    assert!(matches!(Role::try_from("root"), Err(AppError::BadRequest)));
    assert_eq!(Role::User.as_str(), "user");
    assert_eq!(Role::Admin.as_str(), "admin");
}

#[test]
fn error_responses_map_to_status_codes() {
    assert_eq!(AppError::InternalServerError.into_response().code, 500);
    assert_eq!(AppError::NotFound.into_response().code, 404);
    assert_eq!(AppError::BadRequest.into_response().code, 400);
    assert_eq!(AppError::Conflict.into_response().code, 409);
    assert_eq!(AppError::Unauthorized.into_response().code, 401);
    assert_eq!(AppError::Forbidden.into_response().code, 403);
    assert_eq!(AppError::Conflict.into_response().message, "Conflict");
}

#[test]
fn projection_carries_no_credential() {
    let u = User {
        id: 1,
        name: String::from("Ann"),
        email: String::from("ann@x.com"),
        password: String::from("$2b$12$secret"),
        role: Role::User,
        is_email_verified: true,
        created_at: 5,
        updated_at: 6,
    };
    let f: FilteredUser = FilteredUser::from(&u);
    assert_eq!(f.id, 1);
    assert_eq!(f.name, "Ann");
    assert_eq!(f.email, "ann@x.com");
    assert!(f.is_email_verified);
    assert_eq!(f.created_at, 5);
    assert_eq!(f.updated_at, 6);
    // FilteredUser has no password field at all; nothing more to check here.
}

#[test]
fn create_user_enforces_unique_email() {
    let mut users = UserRepository::new();
    let a = create_user(&mut users, "Ann", "ann@x.com", "pw-one-long", Role::Admin, 10).unwrap();
    assert_eq!(a.id, 0);
    assert!(matches!(a.role, Role::Admin));
    let dup = create_user(&mut users, "Ann2", "ann@x.com", "pw-two-long", Role::User, 11);
    assert!(matches!(dup, Err(AppError::Conflict)));
}

#[test]
fn get_user_by_id_and_delete() {
    let mut users = UserRepository::new();
    let a = create_user(&mut users, "Ann", "ann@x.com", "pw-one-long", Role::User, 10).unwrap();
    let got = get_user_by_id(&users, a.id).unwrap();
    assert_eq!(got.email, "ann@x.com");
    assert!(matches!(get_user_by_id(&users, 99), Err(AppError::NotFound)));
    delete_user(&mut users, a.id).unwrap();
    assert!(matches!(get_user_by_id(&users, a.id), Err(AppError::NotFound)));
    assert!(matches!(delete_user(&mut users, a.id), Err(AppError::NotFound)));
}

#[test]
fn update_user_changes_fields_and_keeps_email_unique() {
    let mut users = UserRepository::new();
    let a = create_user(&mut users, "Ann", "ann@x.com", "pw-one-long", Role::User, 10).unwrap();
    let b = create_user(&mut users, "Bob", "bob@x.com", "pw-two-long", Role::User, 11).unwrap();
    let updated = update_user(
        &mut users,
        a.id,
        Some(String::from("Anna")),
        None,
        None,
        20,
    )
    .unwrap();
    assert_eq!(updated.name, "Anna");
    assert_eq!(updated.email, "ann@x.com");
    assert_eq!(updated.updated_at, 20);
    assert_eq!(updated.created_at, 10);
    // Taking Bob's email is a conflict.
    let clash = update_user(&mut users, a.id, None, Some(String::from("bob@x.com")), None, 21);
    assert!(matches!(clash, Err(AppError::Conflict)));
    // An unknown id is NotFound.
    let missing = update_user(&mut users, 99, Some(String::from("X")), None, None, 22);
    assert!(matches!(missing, Err(AppError::NotFound)));
    let _ = b;
}

#[test]
fn listing_pages_newest_first() {
    let mut users = UserRepository::new();
    create_user(&mut users, "A", "a@x.com", "pw-one-long", Role::User, 1).unwrap();
    create_user(&mut users, "B", "b@x.com", "pw-two-long", Role::User, 2).unwrap();
    create_user(&mut users, "C", "c@x.com", "pw-three-long", Role::User, 3).unwrap();
    let page1 = get_users(&users, &UserQueryOptions { page: Some(1), limit: Some(2) });
    assert_eq!(page1.results.len(), 2);
    assert_eq!(page1.results[0].email, "c@x.com");
    assert_eq!(page1.results[1].email, "b@x.com");
    assert_eq!(page1.total_results, 3);
    assert_eq!(page1.total_pages, 2);
    let page2 = get_users(&users, &UserQueryOptions { page: Some(2), limit: Some(2) });
    assert_eq!(page2.results.len(), 1);
    assert_eq!(page2.results[0].email, "a@x.com");
    // Defaults: page 1, limit 10.
    let all = get_users(&users, &UserQueryOptions { page: None, limit: None });
    assert_eq!(all.results.len(), 3);
    assert_eq!(all.page, 1);
    assert_eq!(all.limit, 10);
    assert_eq!(all.total_pages, 1);
    // A page beyond the data is empty.
    let beyond = get_users(&users, &UserQueryOptions { page: Some(9), limit: Some(2) });
    assert_eq!(beyond.results.len(), 0);
}

#[test]
fn token_store_bulk_revoke_by_user_and_kind() {
    let mut tokens = TokenRepository::new();
    tokens.create("t-one", 1, 100, TokenType::Refresh).unwrap();
    tokens.create("t-two", 1, 100, TokenType::Refresh).unwrap();
    tokens.create("t-three", 1, 100, TokenType::ResetPassword).unwrap();
    tokens.create("t-four", 2, 100, TokenType::Refresh).unwrap();
    tokens.delete_user_tokens_by_type(1, TokenType::Refresh);
    assert!(tokens.find_by_token("t-one").is_none());
    assert!(tokens.find_by_token("t-two").is_none());
    assert!(tokens.find_by_token("t-three").is_some());
    assert!(tokens.find_by_token("t-four").is_some());
}

#[test]
fn token_store_rejects_duplicate_token_strings() {
    let mut tokens = TokenRepository::new();
    tokens.create("t-one", 1, 100, TokenType::Refresh).unwrap();
    let dup = tokens.create("t-one", 2, 200, TokenType::Refresh);
    assert!(matches!(dup, Err(AppError::Conflict)));
}

#[test]
fn schema_validation() {
    let ok = RegisterSchema {
        name: String::from("Ann"),
        email: String::from("ann@x.com"),
        password: String::from("longenough1"),
    };
    assert!(ok.validate().is_ok());
    let bad_email = RegisterSchema { email: String::from("not-an-email"), ..ok_clone(&ok) };
    assert!(matches!(bad_email.validate(), Err(AppError::BadRequest)));
    let short_password = RegisterSchema { password: String::from("short"), ..ok_clone(&ok) };
    assert!(matches!(short_password.validate(), Err(AppError::BadRequest)));
    let no_name = RegisterSchema { name: String::new(), ..ok_clone(&ok) };
    assert!(matches!(no_name.validate(), Err(AppError::BadRequest)));
    let login_ok = LoginSchema { email: String::from("ann@x.com"), password: String::from("x") };
    assert!(login_ok.validate().is_ok());
    let login_empty = LoginSchema { email: String::from("ann@x.com"), password: String::new() };
    assert!(matches!(login_empty.validate(), Err(AppError::BadRequest)));
}

fn ok_clone(s: &auth_core::schemas::RegisterSchema) -> auth_core::schemas::RegisterSchema {
    auth_core::schemas::RegisterSchema {
        name: s.name.clone(),
        email: s.email.clone(),
        password: s.password.clone(),
    }
}
