//! The access-control rule shared by every mutating endpoint.

use vstd::prelude::*;

use crate::auth::Role;

verus! {

/// Outcome of the ownership/role check.
#[derive(Clone, Copy, PartialEq, Eq, Structural, Debug)]
pub enum Decision {
    Allow,
    Deny,
}

/// Pure access rule: an actor may mutate a resource iff the actor owns it or
/// holds the admin role.
pub fn decide(actor_id: i32, actor_role: Role, owner_id: i32) -> (d: Decision)
    ensures
        d == Decision::Allow <==> (actor_id == owner_id || actor_role == Role::Admin),
{
    if actor_id == owner_id || actor_role == Role::Admin {
        Decision::Allow
    } else {
        Decision::Deny
    }
}

} // verus!
