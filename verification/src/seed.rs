//! Seeding of the admin account at startup.

use vstd::prelude::*;

use crate::auth::Role;
use crate::password::bcrypt_matches;
use crate::password::hash_password;
use crate::response::ApiError;
use crate::store::UserStore;

verus! {

/// Ensures the admin account exists: if the username is already recorded
/// nothing changes, otherwise the credentials are hashed and stored under
/// the admin role. A clashing email surfaces as the storage failure it
/// would be.
pub fn seed_admin_user(store: &mut UserStore, username: &str, password: &str, email: &str) -> (r:
    Result<(), ApiError>)
    requires
        old(store).wf(),
    ensures
        final(store).wf(),
        old(store).has_username(username@) ==> r == Ok::<(), ApiError>(()) && *final(store)
            == *old(store),
        !old(store).has_username(username@) ==> (r == Err::<(), ApiError>(ApiError::HashingFailed)
            && *final(store) == *old(store)) || ({
            &&& old(store).has_email(email@) ==> r == Err::<(), ApiError>(ApiError::StorageFailed)
                && *final(store) == *old(store)
            &&& !old(store).has_email(email@) && old(store).next_id == i32::MAX ==> r == Err::<
                (),
                ApiError,
            >(ApiError::StorageFailed) && *final(store) == *old(store)
            &&& !old(store).has_email(email@) && old(store).next_id < i32::MAX ==> {
                &&& r == Ok::<(), ApiError>(())
                &&& final(store).next_id == old(store).next_id + 1
                &&& final(store).users@ == old(store).users@.push(final(store).users@.last())
                &&& final(store).users@.last().id == old(store).next_id
                &&& final(store).users@.last().username@ == username@
                &&& final(store).users@.last().email@ == email@
                &&& final(store).users@.last().role == Role::Admin
                &&& bcrypt_matches(password@, final(store).users@.last().password_hash@)
            }
        }),
{
    if store.username_exists(username) {
        return Ok(());
    }
    let hashed = match hash_password(password) {
        None => {
            return Err(ApiError::HashingFailed);
        },
        Some(h) => h,
    };
    if store.email_exists(email) {
        return Err(ApiError::StorageFailed);
    }
    match store.insert_user(username.to_owned(), email.to_owned(), hashed, Role::Admin) {
        None => Err(ApiError::StorageFailed),
        Some(_) => {
            assert(final(store).users@ =~= old(store).users@.push(final(store).users@.last()));
            Ok(())
        },
    }
}

} // verus!
