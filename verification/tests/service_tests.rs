use auth_core::auth::Role;
use auth_core::auth::TokenClaims;
use auth_core::response::ApiError;
use auth_core::seed::seed_admin_user;
use auth_core::store::UserStore;
use auth_core::token::verify_token;
use auth_core::users::fetch_auth_user;
use auth_core::users::login;
use auth_core::users::register;
use auth_core::users::register_hashed;
use auth_core::users::CreateUserBody;
use auth_core::users::UpdateUserBody;

fn key() -> Vec<u8> {
    b"a-process-wide-signing-secret".to_vec()
}

fn alice() -> CreateUserBody {
    CreateUserBody {
        username: "alice".to_string(),
        password: "pw123".to_string(),
        email: "alice@x.com".to_string(),
    }
}

fn no_update() -> UpdateUserBody {
    UpdateUserBody { username: None, email: None, password: None }
}

#[test]
fn register_returns_sanitized_record() {
    let mut store = UserStore::new();
    let u = register(&mut store, &alice()).unwrap();
    assert_eq!(u.id, 1);
    assert_eq!(u.username, "alice");
    assert_eq!(u.email, "alice@x.com");
    assert_eq!(u.role, "user");
    assert_eq!(store.users.len(), 1);
    // the stored hash is not the plaintext
    assert_ne!(store.users[0].password_hash, "pw123");
}

#[test]
fn register_duplicate_username_rejected() {
    let mut store = UserStore::new();
    register(&mut store, &alice()).unwrap();
    let again = CreateUserBody {
        username: "alice".to_string(),
        password: "other".to_string(),
        email: "alice2@x.com".to_string(),
    };
    let e = register(&mut store, &again).unwrap_err();
    assert_eq!(e, ApiError::UsernameTaken);
    assert_eq!(e.status(), 400);
    assert_eq!(e.message(), "Username already exists");
    assert_eq!(store.users.len(), 1);
}

#[test]
fn register_duplicate_email_rejected() {
    let mut store = UserStore::new();
    register(&mut store, &alice()).unwrap();
    let again = CreateUserBody {
        username: "bob".to_string(),
        password: "other".to_string(),
        email: "alice@x.com".to_string(),
    };
    let e = register(&mut store, &again).unwrap_err();
    assert_eq!(e, ApiError::EmailTaken);
    assert_eq!(e.message(), "Email already exists");
    assert_eq!(store.users.len(), 1);
}

#[test]
fn register_invalid_email_rejected() {
    let mut store = UserStore::new();
    let bad = CreateUserBody {
        username: "alice".to_string(),
        password: "pw123".to_string(),
        email: "not-an-address".to_string(),
    };
    let e = register(&mut store, &bad).unwrap_err();
    assert_eq!(e, ApiError::InvalidEmail);
    assert_eq!(e.status(), 400);
    assert_eq!(e.message(), "Invalid email format");
    assert_eq!(store.users.len(), 0);
}

#[test]
fn register_hashed_stores_given_hash() {
    let mut store = UserStore::new();
    let u = register_hashed(&mut store, "carol", "carol@x.com", "not-a-real-hash".to_string())
        .unwrap();
    assert_eq!(u.username, "carol");
    assert_eq!(store.users[0].password_hash, "not-a-real-hash");
    // a stored hash that bcrypt cannot parse matches no password
    assert_eq!(
        login(&store, "carol", Some("anything"), &key()).unwrap_err(),
        ApiError::InvalidCredentials
    );
}

#[test]
fn login_issues_verifiable_token() {
    let mut store = UserStore::new();
    register(&mut store, &alice()).unwrap();
    let token = login(&store, "alice", Some("pw123"), &key()).unwrap();
    let claims = verify_token(&token, &key()).unwrap();
    assert_eq!(claims, TokenClaims { id: 1, role: Role::User });
}

#[test]
fn login_wrong_password_rejected() {
    let mut store = UserStore::new();
    register(&mut store, &alice()).unwrap();
    let e = login(&store, "alice", Some("pw124"), &key()).unwrap_err();
    assert_eq!(e, ApiError::InvalidCredentials);
    assert_eq!(e.status(), 401);
    assert_eq!(e.message(), "Invalid credentials");
}

#[test]
fn login_unknown_user_reported_as_fetch_failure() {
    let store = UserStore::new();
    let e = login(&store, "nobody", Some("pw"), &key()).unwrap_err();
    assert_eq!(e, ApiError::UserFetchFailed);
    assert_eq!(e.status(), 500);
    assert_eq!(e.message(), "Error fetching user");
}

#[test]
fn login_without_password_rejected() {
    let mut store = UserStore::new();
    register(&mut store, &alice()).unwrap();
    let e = login(&store, "alice", None, &key()).unwrap_err();
    assert_eq!(e, ApiError::CredentialsMissing);
    assert_eq!(e.status(), 401);
    assert_eq!(e.message(), "Must provide a valid password");
}

#[test]
fn fetch_auth_user_exposes_hash_and_role() {
    let mut store = UserStore::new();
    register(&mut store, &alice()).unwrap();
    let a = fetch_auth_user(&store, "alice").unwrap();
    assert_eq!(a.id, 1);
    assert_eq!(a.username, "alice");
    assert_eq!(a.role, "user");
    assert_eq!(a.password, store.users[0].password_hash);
    assert!(fetch_auth_user(&store, "bob").is_none());
}

#[test]
fn seed_admin_is_idempotent() {
    let mut store = UserStore::new();
    seed_admin_user(&mut store, "root", "s3cret", "root@x.com").unwrap();
    assert_eq!(store.users.len(), 1);
    assert_eq!(store.users[0].role, Role::Admin);
    seed_admin_user(&mut store, "root", "other", "else@x.com").unwrap();
    assert_eq!(store.users.len(), 1);
    let token = login(&store, "root", Some("s3cret"), &key()).unwrap();
    let claims = verify_token(&token, &key()).unwrap();
    assert_eq!(claims.role, Role::Admin);
}

#[test]
fn seed_admin_email_clash_is_storage_failure() {
    let mut store = UserStore::new();
    register(&mut store, &alice()).unwrap();
    let e = seed_admin_user(&mut store, "root", "s3cret", "alice@x.com").unwrap_err();
    assert_eq!(e, ApiError::StorageFailed);
    assert_eq!(store.users.len(), 1);
}

#[test]
fn update_username_flow() {
    let mut store = UserStore::new();
    register(&mut store, &alice()).unwrap();
    let me = TokenClaims { id: 1, role: Role::User };
    let stranger = TokenClaims { id: 2, role: Role::User };
    let admin = TokenClaims { id: 99, role: Role::Admin };
    let body = UpdateUserBody { username: Some("alicia".to_string()), ..no_update() };

    let e = auth_core::users::update_username(&mut store, None, 1, &body).unwrap_err();
    assert_eq!(e, ApiError::IdentityUnverified);
    assert_eq!(e.status(), 401);

    let e = auth_core::users::update_username(&mut store, Some(&stranger), 1, &body).unwrap_err();
    assert_eq!(e, ApiError::NotProfileOwner);
    assert_eq!(e.status(), 403);
    assert_eq!(e.message(), "You can only update your own information or be an admin");

    let e = auth_core::users::update_username(&mut store, Some(&me), 1, &no_update()).unwrap_err();
    assert_eq!(e, ApiError::UsernameMissing);

    let taken = UpdateUserBody { username: Some("alice".to_string()), ..no_update() };
    let e = auth_core::users::update_username(&mut store, Some(&me), 1, &taken).unwrap_err();
    assert_eq!(e, ApiError::UsernameTaken);

    let e = auth_core::users::update_username(&mut store, Some(&admin), 5, &body).unwrap_err();
    assert_eq!(e, ApiError::UserNotFound);
    assert_eq!(e.status(), 404);
    assert_eq!(e.message(), "User not found");

    let u = auth_core::users::update_username(&mut store, Some(&me), 1, &body).unwrap();
    assert_eq!(u.username, "alicia");
    assert_eq!(u.email, "alice@x.com");
    assert_eq!(store.users[0].username, "alicia");
}

#[test]
fn update_missing_user_is_not_found_even_to_strangers() {
    // The existence check comes before the ownership check: an absent user
    // id reads as missing, never as forbidden, whoever asks.
    let mut store = UserStore::new();
    register(&mut store, &alice()).unwrap();
    let stranger = TokenClaims { id: 2, role: Role::User };
    let name = UpdateUserBody { username: Some("x".to_string()), ..no_update() };
    let mail = UpdateUserBody { email: Some("x@y.com".to_string()), ..no_update() };
    let pass = UpdateUserBody { password: Some("x".to_string()), ..no_update() };
    let e = auth_core::users::update_username(&mut store, Some(&stranger), 5, &name).unwrap_err();
    assert_eq!(e, ApiError::UserNotFound);
    assert_eq!(e.status(), 404);
    let e = auth_core::users::update_email(&mut store, Some(&stranger), 5, &mail).unwrap_err();
    assert_eq!(e, ApiError::UserNotFound);
    let e = auth_core::users::update_password(&mut store, Some(&stranger), 5, &pass).unwrap_err();
    assert_eq!(e, ApiError::UserNotFound);
    assert_eq!(store.users.len(), 1);
}

#[test]
fn update_email_flow() {
    let mut store = UserStore::new();
    register(&mut store, &alice()).unwrap();
    let me = TokenClaims { id: 1, role: Role::User };

    let e = auth_core::users::update_email(&mut store, Some(&me), 1, &no_update()).unwrap_err();
    assert_eq!(e, ApiError::EmailMissing);
    assert_eq!(e.message(), "Email not provided");

    let bad = UpdateUserBody { email: Some("woops".to_string()), ..no_update() };
    let e = auth_core::users::update_email(&mut store, Some(&me), 1, &bad).unwrap_err();
    assert_eq!(e, ApiError::InvalidEmail);

    let same = UpdateUserBody { email: Some("alice@x.com".to_string()), ..no_update() };
    let e = auth_core::users::update_email(&mut store, Some(&me), 1, &same).unwrap_err();
    assert_eq!(e, ApiError::EmailTaken);

    let fresh = UpdateUserBody { email: Some("new@x.com".to_string()), ..no_update() };
    let u = auth_core::users::update_email(&mut store, Some(&me), 1, &fresh).unwrap();
    assert_eq!(u.email, "new@x.com");
    assert_eq!(store.users[0].email, "new@x.com");
}

#[test]
fn update_password_flow() {
    let mut store = UserStore::new();
    register(&mut store, &alice()).unwrap();
    let admin = TokenClaims { id: 99, role: Role::Admin };

    let e = auth_core::users::update_password(&mut store, Some(&admin), 1, &no_update())
        .unwrap_err();
    assert_eq!(e, ApiError::PasswordMissing);
    assert_eq!(e.message(), "Password not provided");

    let body = UpdateUserBody { password: Some("newpw".to_string()), ..no_update() };
    let u = auth_core::users::update_password(&mut store, Some(&admin), 1, &body).unwrap();
    assert_eq!(u.id, 1);
    assert!(login(&store, "alice", Some("pw123"), &key()).is_err());
    assert!(login(&store, "alice", Some("newpw"), &key()).is_ok());
}
