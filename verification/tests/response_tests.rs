use auth_core::auth::Role;
use auth_core::response::ApiError;

#[test]
fn status_codes_follow_the_taxonomy() {
    assert_eq!(ApiError::InvalidEmail.status(), 400);
    assert_eq!(ApiError::UsernameTaken.status(), 400);
    assert_eq!(ApiError::EmailTaken.status(), 400);
    assert_eq!(ApiError::UsernameMissing.status(), 400);
    assert_eq!(ApiError::EmailMissing.status(), 400);
    assert_eq!(ApiError::PasswordMissing.status(), 400);
    assert_eq!(ApiError::TitleMissing.status(), 400);
    assert_eq!(ApiError::ContentMissing.status(), 400);
    assert_eq!(ApiError::CredentialsMissing.status(), 401);
    assert_eq!(ApiError::InvalidCredentials.status(), 401);
    assert_eq!(ApiError::IdentityUnverified.status(), 401);
    assert_eq!(ApiError::NotProfileOwner.status(), 403);
    assert_eq!(ApiError::NotArticleOwnerDelete.status(), 403);
    assert_eq!(ApiError::NotArticleOwnerUpdate.status(), 403);
    assert_eq!(ApiError::UserNotFound.status(), 404);
    assert_eq!(ApiError::ArticleNotFound.status(), 404);
    assert_eq!(ApiError::UserFetchFailed.status(), 500);
    assert_eq!(ApiError::HashingFailed.status(), 500);
    assert_eq!(ApiError::StorageFailed.status(), 500);
}

#[test]
fn role_wire_names_round_trip() {
    assert_eq!(Role::User.name(), "user");
    assert_eq!(Role::Admin.name(), "admin");
    assert_eq!(Role::from_name("user"), Some(Role::User));
    assert_eq!(Role::from_name("admin"), Some(Role::Admin));
    assert_eq!(Role::from_name("root"), None);
}
