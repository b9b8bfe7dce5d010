//! Credential-based identity and authorization core.
//!
//! The library turns a username/password pair into a signed, time-free
//! identity token, validates such tokens on later requests, and enforces the
//! ownership/role rule that guards every mutating operation on users and
//! articles. Storage is an in-memory directory; the HTTP layer around it is
//! ordinary unverified code.

pub mod articles;
pub mod auth;
pub mod email;
pub mod hexcode;
pub mod mac;
pub mod password;
pub mod policy;
pub mod response;
pub mod seed;
pub mod store;
pub mod text;
pub mod token;
pub mod users;
