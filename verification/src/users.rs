//! Registration, login, and the user-profile updates.

use vstd::prelude::*;

use crate::auth::spec_role_name;
use crate::auth::Role;
use crate::auth::TokenClaims;
use crate::email::is_valid_email;
use crate::email::valid_email;
use crate::password::bcrypt_matches;
use crate::password::hash_password;
use crate::password::verify_password;
use crate::response::ApiError;
use crate::store::UserRecord;
use crate::store::UserStore;
use crate::token::sign_claims;
use crate::token::token_chars;
use vstd::utf8::encode_utf8;

verus! {

/// The body of a registration request.
#[derive(Debug)]
pub struct CreateUserBody {
    pub username: String,
    pub password: String,
    pub email: String,
}

/// A user record as handed back to clients: the password never leaves the
/// store.
#[derive(Debug)]
pub struct UserNoPassword {
    pub id: i32,
    pub username: String,
    pub email: String,
    pub role: String,
}

/// The credential row as the login path reads it.
#[derive(Debug)]
pub struct AuthUser {
    pub id: i32,
    pub username: String,
    pub password: String,
    pub role: String,
}

/// The body of a profile update; each request fills one field.
#[derive(Debug)]
pub struct UpdateUserBody {
    pub username: Option<String>,
    pub email: Option<String>,
    pub password: Option<String>,
}

/// Records with equal usernames sit at equal indices.
proof fn lemma_username_unique(s: UserStore, i: int, j: int)
    requires
        s.wf(),
        0 <= i < s.users@.len(),
        0 <= j < s.users@.len(),
        s.users@[i].username@ == s.users@[j].username@,
    ensures
        i == j,
{
    if i < j {
        assert(s.users@[i].username@ != s.users@[j].username@);
    }
    if j < i {
        assert(s.users@[j].username@ != s.users@[i].username@);
    }
}

/// Records with equal ids sit at equal indices.
proof fn lemma_id_unique(s: UserStore, i: int, j: int)
    requires
        s.wf(),
        0 <= i < s.users@.len(),
        0 <= j < s.users@.len(),
        s.users@[i].id == s.users@[j].id,
    ensures
        i == j,
{
    if i < j {
        assert(s.users@[i].id != s.users@[j].id);
    }
    if j < i {
        assert(s.users@[j].id != s.users@[i].id);
    }
}

/// The registration tail once the password hash exists: uniqueness checks,
/// then the insert. Succeeds exactly when username and email are free and
/// the id space is not exhausted.
pub fn register_hashed(
    store: &mut UserStore,
    username: &str,
    email: &str,
    password_hash: String,
) -> (r: Result<UserNoPassword, ApiError>)
    requires
        old(store).wf(),
    ensures
        final(store).wf(),
        old(store).has_username(username@) ==> r == Err::<UserNoPassword, ApiError>(
            ApiError::UsernameTaken,
        ) && *final(store) == *old(store),
        !old(store).has_username(username@) && old(store).has_email(email@) ==> r == Err::<
            UserNoPassword,
            ApiError,
        >(ApiError::EmailTaken) && *final(store) == *old(store),
        !old(store).has_username(username@) && !old(store).has_email(email@) && old(store).next_id
            == i32::MAX ==> r == Err::<UserNoPassword, ApiError>(ApiError::StorageFailed) && *final(store) == *old(store),
        !old(store).has_username(username@) && !old(store).has_email(email@) && old(store).next_id
            < i32::MAX ==> {
            &&& r matches Ok(u)
            &&& u.id == old(store).next_id
            &&& u.username@ == username@
            &&& u.email@ == email@
            &&& u.role@ == spec_role_name(Role::User)
            &&& final(store).next_id == old(store).next_id + 1
            &&& final(store).users@ == old(store).users@.push(final(store).users@.last())
            &&& final(store).users@.last().id == old(store).next_id
            &&& final(store).users@.last().username@ == username@
            &&& final(store).users@.last().email@ == email@
            &&& final(store).users@.last().role == Role::User
            &&& final(store).users@.last().password_hash@ == password_hash@
        },
{
    if store.username_exists(username) {
        return Err(ApiError::UsernameTaken);
    }
    if store.email_exists(email) {
        return Err(ApiError::EmailTaken);
    }
    match store.insert_user(username.to_owned(), email.to_owned(), password_hash, Role::User) {
        None => Err(ApiError::StorageFailed),
        Some(id) => {
            assert(final(store).users@ =~= old(store).users@.push(final(store).users@.last()));
            Ok(
                UserNoPassword {
                    id,
                    username: username.to_owned(),
                    email: email.to_owned(),
                    role: Role::User.name(),
                },
            )
        },
    }
}

/// Registration: validate the address, hash the password, check that
/// username and email are free, then store the record. The reply never
/// carries the password.
pub fn register(store: &mut UserStore, body: &CreateUserBody) -> (r: Result<
    UserNoPassword,
    ApiError,
>)
    requires
        old(store).wf(),
    ensures
        final(store).wf(),
        !valid_email(encode_utf8(body.email@)) ==> r == Err::<UserNoPassword, ApiError>(
            ApiError::InvalidEmail,
        ) && *final(store) == *old(store),
        valid_email(encode_utf8(body.email@)) ==> (r == Err::<UserNoPassword, ApiError>(
            ApiError::HashingFailed,
        ) && *final(store) == *old(store)) || ({
            &&& old(store).has_username(body.username@) ==> r == Err::<UserNoPassword, ApiError>(
                ApiError::UsernameTaken,
            ) && *final(store) == *old(store)
            &&& !old(store).has_username(body.username@) && old(store).has_email(body.email@)
                ==> r == Err::<UserNoPassword, ApiError>(ApiError::EmailTaken) && *final(store)
                == *old(store)
            &&& !old(store).has_username(body.username@) && !old(store).has_email(body.email@)
                && old(store).next_id == i32::MAX ==> r == Err::<UserNoPassword, ApiError>(
                ApiError::StorageFailed,
            ) && *final(store) == *old(store)
            &&& !old(store).has_username(body.username@) && !old(store).has_email(body.email@)
                && old(store).next_id < i32::MAX ==> {
                &&& r matches Ok(u)
                &&& u.id == old(store).next_id
                &&& u.username@ == body.username@
                &&& u.email@ == body.email@
                &&& u.role@ == spec_role_name(Role::User)
                &&& final(store).next_id == old(store).next_id + 1
                &&& final(store).users@ == old(store).users@.push(final(store).users@.last())
                &&& final(store).users@.last().id == old(store).next_id
                &&& final(store).users@.last().username@ == body.username@
                &&& final(store).users@.last().email@ == body.email@
                &&& final(store).users@.last().role == Role::User
                &&& bcrypt_matches(body.password@, final(store).users@.last().password_hash@)
            }
        }),
{
    if !is_valid_email(body.email.as_str()) {
        return Err(ApiError::InvalidEmail);
    }
    let hashed = match hash_password(body.password.as_str()) {
        None => {
            return Err(ApiError::HashingFailed);
        },
        Some(h) => h,
    };
    register_hashed(store, body.username.as_str(), body.email.as_str(), hashed)
}

/// Login: fetch the record under the username, verify the password against
/// the stored hash, and sign the identity claims into a token. A missing
/// user is reported as a fetch failure, exactly as indistinctly as the
/// storage layer reports it.
pub fn login(store: &UserStore, username: &str, password: Option<&str>, key: &Vec<u8>) -> (r:
    Result<String, ApiError>)
    requires
        store.wf(),
    ensures
        password is None ==> r == Err::<String, ApiError>(ApiError::CredentialsMissing),
        password matches Some(p) ==> {
            &&& !store.has_username(username@) ==> r == Err::<String, ApiError>(
                ApiError::UserFetchFailed,
            )
            &&& forall|i: int|
                0 <= i < store.users@.len() && (#[trigger] store.users@[i]).username@ == username@
                    ==> if bcrypt_matches(p@, store.users@[i].password_hash@) {
                    r matches Ok(t) && t@ == token_chars(
                        TokenClaims { id: store.users@[i].id, role: store.users@[i].role },
                        key@,
                    )
                } else {
                    r == Err::<String, ApiError>(ApiError::InvalidCredentials)
                }
        },
{
    let p = match password {
        None => {
            return Err(ApiError::CredentialsMissing);
        },
        Some(p) => p,
    };
    let idx = match store.find_username(username) {
        None => {
            return Err(ApiError::UserFetchFailed);
        },
        Some(i) => i,
    };
    proof {
        assert forall|i: int|
            0 <= i < store.users@.len() && (#[trigger] store.users@[i]).username@
                == username@ implies i == idx as int by {
            lemma_username_unique(*store, i, idx as int);
        }
    }
    if !verify_password(p, store.users[idx].password_hash.as_str()) {
        return Err(ApiError::InvalidCredentials);
    }
    let claims = TokenClaims { id: store.users[idx].id, role: store.users[idx].role };
    Ok(sign_claims(&claims, key))
}

/// The login-path read of a credential row, with the role under its wire
/// name.
pub fn fetch_auth_user(store: &UserStore, username: &str) -> (r: Option<AuthUser>)
    requires
        store.wf(),
    ensures
        r is None <==> !store.has_username(username@),
        r matches Some(a) ==> forall|i: int|
            0 <= i < store.users@.len() && (#[trigger] store.users@[i]).username@ == username@
                ==> a.id == store.users@[i].id && a.username@ == store.users@[i].username@
                && a.password@ == store.users@[i].password_hash@ && a.role@ == spec_role_name(
                store.users@[i].role,
            ),
{
    match store.find_username(username) {
        None => None,
        Some(idx) => {
            proof {
                assert forall|i: int|
                    0 <= i < store.users@.len() && (#[trigger] store.users@[i]).username@
                        == username@ implies i == idx as int by {
                    lemma_username_unique(*store, i, idx as int);
                }
            }
            Some(
                AuthUser {
                    id: store.users[idx].id,
                    username: store.users[idx].username.clone(),
                    password: store.users[idx].password_hash.clone(),
                    role: store.users[idx].role.name(),
                },
            )
        },
    }
}

/// Changes a user's username: the target user must exist (an absent id
/// reads as missing even to a stranger), only the owner or an admin may
/// change it, and the new name must be provided and free.
pub fn update_username(
    store: &mut UserStore,
    identity: Option<&TokenClaims>,
    user_id: i32,
    body: &UpdateUserBody,
) -> (r: Result<UserNoPassword, ApiError>)
    requires
        old(store).wf(),
    ensures
        final(store).wf(),
        identity is None ==> r == Err::<UserNoPassword, ApiError>(ApiError::IdentityUnverified)
            && *final(store) == *old(store),
        identity matches Some(c) ==> {
            &&& !old(store).has_user_id(user_id as int) ==> r == Err::<UserNoPassword, ApiError>(
                ApiError::UserNotFound,
            ) && *final(store) == *old(store)
            &&& old(store).has_user_id(user_id as int) ==> {
                &&& c.id != user_id && c.role != Role::Admin ==> r == Err::<
                    UserNoPassword,
                    ApiError,
                >(ApiError::NotProfileOwner) && *final(store) == *old(store)
                &&& (c.id == user_id || c.role == Role::Admin) ==> {
                    &&& body.username is None ==> r == Err::<UserNoPassword, ApiError>(
                        ApiError::UsernameMissing,
                    ) && *final(store) == *old(store)
                    &&& body.username matches Some(u) ==> {
                        &&& old(store).has_username(u@) ==> r == Err::<UserNoPassword, ApiError>(
                            ApiError::UsernameTaken,
                        ) && *final(store) == *old(store)
                        &&& !old(store).has_username(u@) ==> {
                            &&& r matches Ok(out)
                            &&& out.id == user_id
                            &&& out.username@ == u@
                            &&& final(store).next_id == old(store).next_id
                            &&& forall|i: int|
                                0 <= i < old(store).users@.len() && (#[trigger] old(store).users@[i]).id == user_id ==> final(store).users@ == old(store).users@.update(
                                    i,
                                    (UserRecord { username: u, ..old(store).users@[i] }),
                                ) && out.email@ == old(store).users@[i].email@ && out.role@
                                    == spec_role_name(old(store).users@[i].role)
                        }
                    }
                }
            }
        },
{
    let c = match identity {
        None => {
            return Err(ApiError::IdentityUnverified);
        },
        Some(c) => c,
    };
    let idx = match store.find_user_id(user_id) {
        None => {
            return Err(ApiError::UserNotFound);
        },
        Some(i) => i,
    };
    proof {
        assert forall|i: int|
            0 <= i < store.users@.len() && (#[trigger] store.users@[i]).id
                == user_id implies i == idx as int by {
            lemma_id_unique(*store, i, idx as int);
        }
    }
    if c.id != user_id && c.role != Role::Admin {
        return Err(ApiError::NotProfileOwner);
    }
    let newname = match &body.username {
        None => {
            return Err(ApiError::UsernameMissing);
        },
        Some(u) => u,
    };
    if store.username_exists(newname.as_str()) {
        return Err(ApiError::UsernameTaken);
    }
    let email = store.users[idx].email.clone();
    let role = store.users[idx].role;
    store.set_username(idx, newname.clone());
    Ok(UserNoPassword { id: user_id, username: newname.clone(), email, role: role.name() })
}

/// Changes a user's email: the target user must exist (an absent id reads
/// as missing even to a stranger), only the owner or an admin may change
/// it, and the new address must be provided, well-formed and free.
pub fn update_email(
    store: &mut UserStore,
    identity: Option<&TokenClaims>,
    user_id: i32,
    body: &UpdateUserBody,
) -> (r: Result<UserNoPassword, ApiError>)
    requires
        old(store).wf(),
    ensures
        final(store).wf(),
        identity is None ==> r == Err::<UserNoPassword, ApiError>(ApiError::IdentityUnverified)
            && *final(store) == *old(store),
        identity matches Some(c) ==> {
            &&& !old(store).has_user_id(user_id as int) ==> r == Err::<UserNoPassword, ApiError>(
                ApiError::UserNotFound,
            ) && *final(store) == *old(store)
            &&& old(store).has_user_id(user_id as int) ==> {
                &&& c.id != user_id && c.role != Role::Admin ==> r == Err::<
                    UserNoPassword,
                    ApiError,
                >(ApiError::NotProfileOwner) && *final(store) == *old(store)
                &&& (c.id == user_id || c.role == Role::Admin) ==> {
                    &&& body.email is None ==> r == Err::<UserNoPassword, ApiError>(
                        ApiError::EmailMissing,
                    ) && *final(store) == *old(store)
                    &&& body.email matches Some(e) ==> {
                        &&& !valid_email(encode_utf8(e@)) ==> r == Err::<UserNoPassword, ApiError>(
                            ApiError::InvalidEmail,
                        ) && *final(store) == *old(store)
                        &&& valid_email(encode_utf8(e@)) && old(store).has_email(e@) ==> r
                            == Err::<UserNoPassword, ApiError>(ApiError::EmailTaken) && *final(store) == *old(store)
                        &&& valid_email(encode_utf8(e@)) && !old(store).has_email(e@) ==> {
                            &&& r matches Ok(out)
                            &&& out.id == user_id
                            &&& out.email@ == e@
                            &&& final(store).next_id == old(store).next_id
                            &&& forall|i: int|
                                0 <= i < old(store).users@.len() && (#[trigger] old(store).users@[i]).id == user_id ==> final(store).users@ == old(store).users@.update(
                                    i,
                                    (UserRecord { email: e, ..old(store).users@[i] }),
                                ) && out.username@ == old(store).users@[i].username@ && out.role@
                                    == spec_role_name(old(store).users@[i].role)
                        }
                    }
                }
            }
        },
{
    let c = match identity {
        None => {
            return Err(ApiError::IdentityUnverified);
        },
        Some(c) => c,
    };
    let idx = match store.find_user_id(user_id) {
        None => {
            return Err(ApiError::UserNotFound);
        },
        Some(i) => i,
    };
    proof {
        assert forall|i: int|
            0 <= i < store.users@.len() && (#[trigger] store.users@[i]).id
                == user_id implies i == idx as int by {
            lemma_id_unique(*store, i, idx as int);
        }
    }
    if c.id != user_id && c.role != Role::Admin {
        return Err(ApiError::NotProfileOwner);
    }
    let newmail = match &body.email {
        None => {
            return Err(ApiError::EmailMissing);
        },
        Some(e) => e,
    };
    if !is_valid_email(newmail.as_str()) {
        return Err(ApiError::InvalidEmail);
    }
    if store.email_exists(newmail.as_str()) {
        return Err(ApiError::EmailTaken);
    }
    let username = store.users[idx].username.clone();
    let role = store.users[idx].role;
    store.set_email(idx, newmail.clone());
    Ok(UserNoPassword { id: user_id, username, email: newmail.clone(), role: role.name() })
}

/// Changes a user's password: the target user must exist (an absent id
/// reads as missing even to a stranger), only the owner or an admin may
/// change it, and the new password must be provided. Only the fresh hash is
/// stored.
pub fn update_password(
    store: &mut UserStore,
    identity: Option<&TokenClaims>,
    user_id: i32,
    body: &UpdateUserBody,
) -> (r: Result<UserNoPassword, ApiError>)
    requires
        old(store).wf(),
    ensures
        final(store).wf(),
        identity is None ==> r == Err::<UserNoPassword, ApiError>(ApiError::IdentityUnverified)
            && *final(store) == *old(store),
        identity matches Some(c) ==> {
            &&& !old(store).has_user_id(user_id as int) ==> r == Err::<UserNoPassword, ApiError>(
                ApiError::UserNotFound,
            ) && *final(store) == *old(store)
            &&& old(store).has_user_id(user_id as int) ==> {
                &&& c.id != user_id && c.role != Role::Admin ==> r == Err::<
                    UserNoPassword,
                    ApiError,
                >(ApiError::NotProfileOwner) && *final(store) == *old(store)
                &&& (c.id == user_id || c.role == Role::Admin) ==> {
                    &&& body.password is None ==> r == Err::<UserNoPassword, ApiError>(
                        ApiError::PasswordMissing,
                    ) && *final(store) == *old(store)
                    &&& body.password matches Some(pw) ==> (r == Err::<UserNoPassword, ApiError>(
                        ApiError::HashingFailed,
                    ) && *final(store) == *old(store)) || ({
                        &&& r matches Ok(out)
                        &&& out.id == user_id
                        &&& final(store).next_id == old(store).next_id
                        &&& forall|i: int|
                            0 <= i < old(store).users@.len() && (#[trigger] old(store).users@[i]).id == user_id ==> final(store).users@ == old(store).users@.update(
                                i,
                                (UserRecord {
                                    password_hash: final(store).users@[i].password_hash,
                                    ..old(store).users@[i]
                                }),
                            ) && bcrypt_matches(pw@, final(store).users@[i].password_hash@)
                                && out.username@ == old(store).users@[i].username@ && out.email@
                                == old(store).users@[i].email@ && out.role@ == spec_role_name(
                                old(store).users@[i].role,
                            )
                    })
                }
            }
        },
{
    let c = match identity {
        None => {
            return Err(ApiError::IdentityUnverified);
        },
        Some(c) => c,
    };
    let idx = match store.find_user_id(user_id) {
        None => {
            return Err(ApiError::UserNotFound);
        },
        Some(i) => i,
    };
    proof {
        assert forall|i: int|
            0 <= i < store.users@.len() && (#[trigger] store.users@[i]).id
                == user_id implies i == idx as int by {
            lemma_id_unique(*store, i, idx as int);
        }
    }
    if c.id != user_id && c.role != Role::Admin {
        return Err(ApiError::NotProfileOwner);
    }
    let pw = match &body.password {
        None => {
            return Err(ApiError::PasswordMissing);
        },
        Some(p) => p,
    };
    let hashed = match hash_password(pw.as_str()) {
        None => {
            return Err(ApiError::HashingFailed);
        },
        Some(h) => h,
    };
    let username = store.users[idx].username.clone();
    let email = store.users[idx].email.clone();
    let role = store.users[idx].role;
    store.set_password_hash(idx, hashed);
    Ok(UserNoPassword { id: user_id, username, email, role: role.name() })
}

} // verus!
