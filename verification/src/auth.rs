//! Identity claims and the per-request authentication step.
//!
//! The middleware state machine per request: no header yields no identity
//! (the handler decides what that means), a header with a bearer token is
//! verified, and a failing token rejects the request before any handler
//! runs.

use vstd::prelude::*;

use crate::text::str_eq;
use crate::token::spec_verify;
use crate::token::verify_token_bytes;
use crate::token::TokenError;
use vstd::slice::slice_subrange;
use vstd::utf8::encode_utf8;

verus! {

/// Coarse privilege tier. On the wire the two variants are the strings
/// `"user"` and `"admin"`.
#[derive(Clone, Copy, PartialEq, Eq, Structural, Debug)]
pub enum Role {
    User,
    Admin,
}

/// The wire name of a role.
pub open spec fn spec_role_name(r: Role) -> Seq<char> {
    match r {
        Role::User => "user"@,
        Role::Admin => "admin"@,
    }
}

/// The role a wire name denotes, if any.
pub open spec fn spec_role_of_name(s: Seq<char>) -> Option<Role> {
    if s == "user"@ {
        Some(Role::User)
    } else if s == "admin"@ {
        Some(Role::Admin)
    } else {
        None
    }
}

impl Role {
    /// Renders the role under its wire name.
    pub fn name(&self) -> (r: String)
        ensures
            r@ == spec_role_name(*self),
    {
        match *self {
            Role::User => "user".to_owned(),
            Role::Admin => "admin".to_owned(),
        }
    }

    /// Reads a role from its wire name.
    pub fn from_name(s: &str) -> (r: Option<Role>)
        ensures
            r == spec_role_of_name(s@),
    {
        if str_eq(s, "user") {
            Some(Role::User)
        } else if str_eq(s, "admin") {
            Some(Role::Admin)
        } else {
            None
        }
    }
}

/// The identity payload embedded in a token: the user's primary key and its
/// role. A value type: decoding a token yields a fresh copy.
#[derive(Clone, Copy, PartialEq, Eq, Structural, Debug)]
pub struct TokenClaims {
    pub id: i32,
    pub role: Role,
}

/// What the middleware hands the request after looking at the authorization
/// header.
#[derive(Clone, Copy, PartialEq, Eq, Structural, Debug)]
pub enum RequestIdentity {
    /// No authorization header: the request proceeds without an identity.
    Anonymous,
    /// The bearer token verified; these are its claims.
    Authenticated(TokenClaims),
    /// A header was present but its token did not verify; the request is
    /// rejected before any handler runs.
    Rejected(TokenError),
}

/// The authorization-header prefix `Bearer` followed by one space.
pub open spec fn bearer_prefix() -> Seq<u8> {
    seq![66u8, 101u8, 97u8, 114u8, 101u8, 114u8, 32u8]
}

/// The middleware decision for a request, from its authorization header and
/// the process secret.
pub open spec fn spec_authenticate(header: Option<Seq<char>>, key: Seq<u8>) -> RequestIdentity {
    match header {
        None => RequestIdentity::Anonymous,
        Some(s) => {
            let b = encode_utf8(s);
            if b.len() < 7 || b.subrange(0, 7) != bearer_prefix() {
                RequestIdentity::Rejected(TokenError::Malformed)
            } else {
                match spec_verify(b.skip(7), key) {
                    Ok(c) => RequestIdentity::Authenticated(c),
                    Err(e) => RequestIdentity::Rejected(e),
                }
            }
        },
    }
}

/// Looks at the authorization header of one request: absence yields no
/// identity rather than a rejection, a verified bearer token yields its
/// claims, anything else rejects the request.
pub fn authenticate(header: Option<&str>, key: &Vec<u8>) -> (r: RequestIdentity)
    ensures
        header is None ==> r == RequestIdentity::Anonymous,
        header matches Some(s) ==> r == spec_authenticate(Some(s@), key@),
{
    match header {
        None => RequestIdentity::Anonymous,
        Some(s) => {
            let b = s.as_bytes();
            if b.len() < 7 {
                return RequestIdentity::Rejected(TokenError::Malformed);
            }
            if !(b[0] == 66 && b[1] == 101 && b[2] == 97 && b[3] == 114 && b[4] == 101 && b[5]
                == 114 && b[6] == 32) {
                proof {
                    let p = bearer_prefix();
                    let q = b@.subrange(0, 7);
                    if q == p {
                        assert(q[0] == 66 && q[1] == 101 && q[2] == 97 && q[3] == 114 && q[4]
                            == 101 && q[5] == 114 && q[6] == 32);
                    }
                }
                return RequestIdentity::Rejected(TokenError::Malformed);
            }
            assert(b@.subrange(0, 7) =~= bearer_prefix());
            let tok = slice_subrange(b, 7, b.len());
            assert(tok@ =~= encode_utf8(s@).skip(7));
            match verify_token_bytes(tok, key) {
                Ok(c) => RequestIdentity::Authenticated(c),
                Err(e) => RequestIdentity::Rejected(e),
            }
        },
    }
}

} // verus!
