//! The error taxonomy shared by every operation of the core, with its HTTP
//! status mapping and user-facing message.

use vstd::prelude::*;

verus! {

/// Every way a core operation can fail. Validation and conflict errors map
/// to 400, authentication errors to 401, authorization errors to 403,
/// missing resources to 404, and internal failures to 500.
#[derive(Clone, Copy, PartialEq, Eq, Structural, Debug)]
pub enum ApiError {
    /// The email does not match the address pattern.
    InvalidEmail,
    /// The requested username is already recorded.
    UsernameTaken,
    /// The requested email is already recorded.
    EmailTaken,
    /// The update body carries no username.
    UsernameMissing,
    /// The update body carries no email.
    EmailMissing,
    /// The update body carries no password.
    PasswordMissing,
    /// The update body carries no title.
    TitleMissing,
    /// The update body carries no content.
    ContentMissing,
    /// Login arrived without a password.
    CredentialsMissing,
    /// The password does not verify against the stored hash.
    InvalidCredentials,
    /// The request carried no validated identity.
    IdentityUnverified,
    /// The actor is neither the profile's owner nor an admin.
    NotProfileOwner,
    /// The actor is neither the article's owner nor an admin.
    NotArticleOwnerDelete,
    /// The actor is neither the article's owner nor an admin.
    NotArticleOwnerUpdate,
    /// No user record has the requested id.
    UserNotFound,
    /// No article record has the requested id.
    ArticleNotFound,
    /// The credential record could not be fetched.
    UserFetchFailed,
    /// Password hashing failed inside the hasher.
    HashingFailed,
    /// The store cannot take another record.
    StorageFailed,
}

/// The HTTP status code a failure maps to.
pub open spec fn spec_status(e: ApiError) -> u16 {
    match e {
        ApiError::InvalidEmail => 400,
        ApiError::UsernameTaken => 400,
        ApiError::EmailTaken => 400,
        ApiError::UsernameMissing => 400,
        ApiError::EmailMissing => 400,
        ApiError::PasswordMissing => 400,
        ApiError::TitleMissing => 400,
        ApiError::ContentMissing => 400,
        ApiError::CredentialsMissing => 401,
        ApiError::InvalidCredentials => 401,
        ApiError::IdentityUnverified => 401,
        ApiError::NotProfileOwner => 403,
        ApiError::NotArticleOwnerDelete => 403,
        ApiError::NotArticleOwnerUpdate => 403,
        ApiError::UserNotFound => 404,
        ApiError::ArticleNotFound => 404,
        ApiError::UserFetchFailed => 500,
        ApiError::HashingFailed => 500,
        ApiError::StorageFailed => 500,
    }
}

/// The body text a failure maps to.
pub open spec fn spec_message(e: ApiError) -> Seq<char> {
    match e {
        ApiError::InvalidEmail => "Invalid email format"@,
        ApiError::UsernameTaken => "Username already exists"@,
        ApiError::EmailTaken => "Email already exists"@,
        ApiError::UsernameMissing => "Username not provided"@,
        ApiError::EmailMissing => "Email not provided"@,
        ApiError::PasswordMissing => "Password not provided"@,
        ApiError::TitleMissing => "Title not provided"@,
        ApiError::ContentMissing => "Content not provided"@,
        ApiError::CredentialsMissing => "Must provide a valid password"@,
        ApiError::InvalidCredentials => "Invalid credentials"@,
        ApiError::IdentityUnverified => "Unable to verify identity"@,
        ApiError::NotProfileOwner => "You can only update your own information or be an admin"@,
        ApiError::NotArticleOwnerDelete => "You can only delete your own articles"@,
        ApiError::NotArticleOwnerUpdate => "You can only update your own articles"@,
        ApiError::UserNotFound => "User not found"@,
        ApiError::ArticleNotFound => "Article not found"@,
        ApiError::UserFetchFailed => "Error fetching user"@,
        ApiError::HashingFailed => "Password hashing failed"@,
        ApiError::StorageFailed => "Storage failure"@,
    }
}

impl ApiError {
    /// The HTTP status code of this failure.
    pub fn status(&self) -> (r: u16)
        ensures
            r == spec_status(*self),
    {
        match *self {
            ApiError::InvalidEmail => 400,
            ApiError::UsernameTaken => 400,
            ApiError::EmailTaken => 400,
            ApiError::UsernameMissing => 400,
            ApiError::EmailMissing => 400,
            ApiError::PasswordMissing => 400,
            ApiError::TitleMissing => 400,
            ApiError::ContentMissing => 400,
            ApiError::CredentialsMissing => 401,
            ApiError::InvalidCredentials => 401,
            ApiError::IdentityUnverified => 401,
            ApiError::NotProfileOwner => 403,
            ApiError::NotArticleOwnerDelete => 403,
            ApiError::NotArticleOwnerUpdate => 403,
            ApiError::UserNotFound => 404,
            ApiError::ArticleNotFound => 404,
            ApiError::UserFetchFailed => 500,
            ApiError::HashingFailed => 500,
            ApiError::StorageFailed => 500,
        }
    }

    /// The user-facing message of this failure.
    pub fn message(&self) -> (r: String)
        ensures
            r@ == spec_message(*self),
    {
        match *self {
            ApiError::InvalidEmail => "Invalid email format".to_owned(),
            ApiError::UsernameTaken => "Username already exists".to_owned(),
            ApiError::EmailTaken => "Email already exists".to_owned(),
            ApiError::UsernameMissing => "Username not provided".to_owned(),
            ApiError::EmailMissing => "Email not provided".to_owned(),
            ApiError::PasswordMissing => "Password not provided".to_owned(),
            ApiError::TitleMissing => "Title not provided".to_owned(),
            ApiError::ContentMissing => "Content not provided".to_owned(),
            ApiError::CredentialsMissing => "Must provide a valid password".to_owned(),
            ApiError::InvalidCredentials => "Invalid credentials".to_owned(),
            ApiError::IdentityUnverified => "Unable to verify identity".to_owned(),
            ApiError::NotProfileOwner => "You can only update your own information or be an admin".to_owned(),
            ApiError::NotArticleOwnerDelete => "You can only delete your own articles".to_owned(),
            ApiError::NotArticleOwnerUpdate => "You can only update your own articles".to_owned(),
            ApiError::UserNotFound => "User not found".to_owned(),
            ApiError::ArticleNotFound => "Article not found".to_owned(),
            ApiError::UserFetchFailed => "Error fetching user".to_owned(),
            ApiError::HashingFailed => "Password hashing failed".to_owned(),
            ApiError::StorageFailed => "Storage failure".to_owned(),
        }
    }
}

} // verus!
