//! The in-memory credential directory: the storage collaborator behind
//! registration and login. Usernames, emails and ids are unique; ids are
//! handed out in insertion order.

use vstd::prelude::*;

use crate::auth::Role;
use crate::text::str_eq;

verus! {

/// One stored credential record. Only the hash of the password is held.
pub struct UserRecord {
    pub id: i32,
    pub username: String,
    pub email: String,
    pub password_hash: String,
    pub role: Role,
}

impl Clone for UserRecord {
    fn clone(&self) -> (r: Self)
        ensures
            r == *self,
    {
        UserRecord {
            id: self.id,
            username: self.username.clone(),
            email: self.email.clone(),
            password_hash: self.password_hash.clone(),
            role: self.role,
        }
    }
}

/// The directory of credential records.
pub struct UserStore {
    pub users: Vec<UserRecord>,
    pub next_id: i32,
}

impl UserStore {
    /// Well-formedness: ids are positive, below the next id to hand out,
    /// and ids, usernames and emails are pairwise distinct.
    pub open spec fn wf(&self) -> bool {
        &&& 1 <= self.next_id
        &&& forall|i: int|
            0 <= i < self.users@.len() ==> 1 <= (#[trigger] self.users@[i]).id < self.next_id
        &&& forall|i: int, j: int|
            0 <= i < j < self.users@.len() ==> #[trigger] self.users@[i].id
                != #[trigger] self.users@[j].id && self.users@[i].username@
                != self.users@[j].username@ && self.users@[i].email@ != self.users@[j].email@
    }

    /// Some record carries this username.
    pub open spec fn has_username(&self, u: Seq<char>) -> bool {
        exists|i: int| 0 <= i < self.users@.len() && (#[trigger] self.users@[i]).username@ == u
    }

    /// Some record carries this email.
    pub open spec fn has_email(&self, e: Seq<char>) -> bool {
        exists|i: int| 0 <= i < self.users@.len() && (#[trigger] self.users@[i]).email@ == e
    }

    /// Some record carries this id.
    pub open spec fn has_user_id(&self, id: int) -> bool {
        exists|i: int| 0 <= i < self.users@.len() && (#[trigger] self.users@[i]).id == id
    }

    /// An empty directory.
    pub fn new() -> (s: UserStore)
        ensures
            s.wf(),
            s.users@.len() == 0,
            s.next_id == 1,
    {
        UserStore { users: Vec::new(), next_id: 1 }
    }

    /// The index of the record with this username, if any.
    pub fn find_username(&self, name: &str) -> (r: Option<usize>)
        ensures
            match r {
                Some(i) => i < self.users@.len() && self.users@[i as int].username@ == name@,
                None => !self.has_username(name@),
            },
    {
        let n = self.users.len();
        let mut i: usize = 0;
        while i < n
            invariant
                n == self.users@.len(),
                0 <= i <= n,
                forall|k: int| 0 <= k < i ==> (#[trigger] self.users@[k]).username@ != name@,
            decreases n - i,
        {
            if str_eq(self.users[i].username.as_str(), name) {
                return Some(i);
            }
            i = i + 1;
        }
        None
    }

    /// The index of the record with this email, if any.
    pub fn find_email(&self, em: &str) -> (r: Option<usize>)
        ensures
            match r {
                Some(i) => i < self.users@.len() && self.users@[i as int].email@ == em@,
                None => !self.has_email(em@),
            },
    {
        let n = self.users.len();
        let mut i: usize = 0;
        while i < n
            invariant
                n == self.users@.len(),
                0 <= i <= n,
                forall|k: int| 0 <= k < i ==> (#[trigger] self.users@[k]).email@ != em@,
            decreases n - i,
        {
            if str_eq(self.users[i].email.as_str(), em) {
                return Some(i);
            }
            i = i + 1;
        }
        None
    }

    /// The index of the record with this id, if any.
    pub fn find_user_id(&self, id: i32) -> (r: Option<usize>)
        ensures
            match r {
                Some(i) => i < self.users@.len() && self.users@[i as int].id == id,
                None => !self.has_user_id(id as int),
            },
    {
        let n = self.users.len();
        let mut i: usize = 0;
        while i < n
            invariant
                n == self.users@.len(),
                0 <= i <= n,
                forall|k: int| 0 <= k < i ==> (#[trigger] self.users@[k]).id != id,
            decreases n - i,
        {
            if self.users[i].id == id {
                return Some(i);
            }
            i = i + 1;
        }
        None
    }

    /// Whether this username is already recorded.
    pub fn username_exists(&self, name: &str) -> (r: bool)
        ensures
            r == self.has_username(name@),
    {
        self.find_username(name).is_some()
    }

    /// Whether this email is already recorded.
    pub fn email_exists(&self, em: &str) -> (r: bool)
        ensures
            r == self.has_email(em@),
    {
        self.find_email(em).is_some()
    }

    /// Inserts a fresh record under the next id. Refuses only when the id
    /// space is exhausted.
    pub fn insert_user(
        &mut self,
        username: String,
        email: String,
        password_hash: String,
        role: Role,
    ) -> (r: Option<i32>)
        requires
            old(self).wf(),
            !old(self).has_username(username@),
            !old(self).has_email(email@),
        ensures
            final(self).wf(),
            old(self).next_id == i32::MAX ==> r is None && *final(self) == *old(self),
            old(self).next_id < i32::MAX ==> r == Some(old(self).next_id) && final(self).users@
                == old(self).users@.push(
                UserRecord {
                    id: old(self).next_id,
                    username: username,
                    email: email,
                    password_hash: password_hash,
                    role: role,
                },
            ) && final(self).next_id == old(self).next_id + 1,
    {
        if self.next_id == i32::MAX {
            return None;
        }
        let id = self.next_id;
        let rec = UserRecord { id, username, email, password_hash, role };
        self.users.push(rec);
        self.next_id = self.next_id + 1;
        proof {
            assert forall|i: int|
                0 <= i < self.users@.len() implies 1 <= (#[trigger] self.users@[i]).id
                < self.next_id by {
                if i < self.users@.len() - 1 {
                    assert(self.users@[i] == old(self).users@[i]);
                }
            }
            assert forall|i: int, j: int|
                0 <= i < j < self.users@.len() implies #[trigger] self.users@[i].id
                != #[trigger] self.users@[j].id && self.users@[i].username@
                != self.users@[j].username@ && self.users@[i].email@
                != self.users@[j].email@ by {
                if j < self.users@.len() - 1 {
                    assert(self.users@[i] == old(self).users@[i]);
                    assert(self.users@[j] == old(self).users@[j]);
                } else {
                    assert(self.users@[i] == old(self).users@[i]);
                    assert(!old(self).has_username(username@));
                    assert(!old(self).has_email(email@));
                }
            }
        }
        Some(id)
    }

    /// Replaces the username of the record at `idx`.
    pub fn set_username(&mut self, idx: usize, username: String)
        requires
            old(self).wf(),
            idx < old(self).users@.len(),
            !old(self).has_username(username@),
        ensures
            final(self).wf(),
            final(self).next_id == old(self).next_id,
            final(self).users@ == old(self).users@.update(
                idx as int,
                (UserRecord { username: username, ..old(self).users@[idx as int] }),
            ),
    {
        let rec = UserRecord {
            id: self.users[idx].id,
            username,
            email: self.users[idx].email.clone(),
            password_hash: self.users[idx].password_hash.clone(),
            role: self.users[idx].role,
        };
        self.users[idx] = rec;
        proof {
            assert(final(self).users@ =~= old(self).users@.update(
                idx as int,
                (UserRecord { username: username, ..old(self).users@[idx as int] }),
            ));
            lemma_update_keeps_wf_username(*old(self), *self, idx as int, username@);
        }
    }

    /// Replaces the email of the record at `idx`.
    pub fn set_email(&mut self, idx: usize, email: String)
        requires
            old(self).wf(),
            idx < old(self).users@.len(),
            !old(self).has_email(email@),
        ensures
            final(self).wf(),
            final(self).next_id == old(self).next_id,
            final(self).users@ == old(self).users@.update(
                idx as int,
                (UserRecord { email: email, ..old(self).users@[idx as int] }),
            ),
    {
        let rec = UserRecord {
            id: self.users[idx].id,
            username: self.users[idx].username.clone(),
            email,
            password_hash: self.users[idx].password_hash.clone(),
            role: self.users[idx].role,
        };
        self.users[idx] = rec;
        proof {
            assert(final(self).users@ =~= old(self).users@.update(
                idx as int,
                (UserRecord { email: email, ..old(self).users@[idx as int] }),
            ));
            lemma_update_keeps_wf_email(*old(self), *self, idx as int, email@);
        }
    }

    /// Replaces the password hash of the record at `idx`.
    pub fn set_password_hash(&mut self, idx: usize, password_hash: String)
        requires
            old(self).wf(),
            idx < old(self).users@.len(),
        ensures
            final(self).wf(),
            final(self).next_id == old(self).next_id,
            final(self).users@ == old(self).users@.update(
                idx as int,
                (UserRecord { password_hash: password_hash, ..old(self).users@[idx as int] }),
            ),
    {
        let rec = UserRecord {
            id: self.users[idx].id,
            username: self.users[idx].username.clone(),
            email: self.users[idx].email.clone(),
            password_hash,
            role: self.users[idx].role,
        };
        self.users[idx] = rec;
        proof {
            assert(final(self).users@ =~= old(self).users@.update(
                idx as int,
                (UserRecord { password_hash: password_hash, ..old(self).users@[idx as int] }),
            ));
            let a = old(self).users@;
            let b = self.users@;
            assert forall|i: int, j: int|
                0 <= i < j < b.len() implies #[trigger] b[i].id != #[trigger] b[j].id
                && b[i].username@ != b[j].username@ && b[i].email@ != b[j].email@ by {
                assert(a[i].id != a[j].id && a[i].username@ != a[j].username@ && a[i].email@
                    != a[j].email@);
            }
        }
    }
}

/// A record update that keeps ids, emails, and all other usernames, and
/// writes a username nobody holds, keeps the directory well-formed.
proof fn lemma_update_keeps_wf_username(a: UserStore, b: UserStore, idx: int, name: Seq<char>)
    requires
        a.wf(),
        0 <= idx < a.users@.len(),
        !a.has_username(name),
        b.next_id == a.next_id,
        b.users@.len() == a.users@.len(),
        forall|i: int| 0 <= i < a.users@.len() && i != idx ==> #[trigger] b.users@[i] == a.users@[i],
        b.users@[idx].id == a.users@[idx].id,
        b.users@[idx].email@ == a.users@[idx].email@,
        b.users@[idx].username@ == name,
    ensures
        b.wf(),
{
    let u = b.users@;
    let v = a.users@;
    assert forall|i: int| 0 <= i < u.len() implies 1 <= (#[trigger] u[i]).id < b.next_id by {
        if i != idx {
            assert(u[i] == v[i]);
        } else {
            assert(u[i].id == v[i].id);
        }
    }
    assert forall|i: int, j: int|
        0 <= i < j < u.len() implies #[trigger] u[i].id != #[trigger] u[j].id && u[i].username@
        != u[j].username@ && u[i].email@ != u[j].email@ by {
        assert(v[i].id != v[j].id && v[i].username@ != v[j].username@ && v[i].email@
            != v[j].email@);
        if i == idx {
            assert(u[j] == v[j]);
            assert(v[j].username@ != name);
        } else if j == idx {
            assert(u[i] == v[i]);
            assert(v[i].username@ != name);
        }
    }
}

/// The email twin of the username update lemma.
proof fn lemma_update_keeps_wf_email(a: UserStore, b: UserStore, idx: int, email: Seq<char>)
    requires
        a.wf(),
        0 <= idx < a.users@.len(),
        !a.has_email(email),
        b.next_id == a.next_id,
        b.users@.len() == a.users@.len(),
        forall|i: int| 0 <= i < a.users@.len() && i != idx ==> #[trigger] b.users@[i] == a.users@[i],
        b.users@[idx].id == a.users@[idx].id,
        b.users@[idx].username@ == a.users@[idx].username@,
        b.users@[idx].email@ == email,
    ensures
        b.wf(),
{
    let u = b.users@;
    let v = a.users@;
    assert forall|i: int| 0 <= i < u.len() implies 1 <= (#[trigger] u[i]).id < b.next_id by {
        if i != idx {
            assert(u[i] == v[i]);
        }
    }
    assert forall|i: int, j: int|
        0 <= i < j < u.len() implies #[trigger] u[i].id != #[trigger] u[j].id && u[i].username@
        != u[j].username@ && u[i].email@ != u[j].email@ by {
        assert(v[i].id != v[j].id && v[i].username@ != v[j].username@ && v[i].email@
            != v[j].email@);
        if i == idx {
            assert(u[j] == v[j]);
            assert(v[j].email@ != email);
        } else if j == idx {
            assert(u[i] == v[i]);
            assert(v[i].email@ != email);
        }
    }
}

} // verus!
