use auth_core::auth::authenticate;
use auth_core::auth::RequestIdentity;
use auth_core::auth::Role;
use auth_core::auth::TokenClaims;
use auth_core::token::sign_claims;
use auth_core::token::verify_token;
use auth_core::token::TokenError;

fn key() -> Vec<u8> {
    b"a-process-wide-signing-secret".to_vec()
}

#[test]
fn token_round_trip_user() {
    let c = TokenClaims { id: 42, role: Role::User };
    let t = sign_claims(&c, &key());
    assert_eq!(verify_token(&t, &key()), Ok(c));
}

#[test]
fn token_round_trip_admin() {
    let c = TokenClaims { id: 1, role: Role::Admin };
    let t = sign_claims(&c, &key());
    assert_eq!(verify_token(&t, &key()), Ok(c));
}

#[test]
fn token_round_trip_negative_id() {
    let c = TokenClaims { id: -7, role: Role::User };
    let t = sign_claims(&c, &key());
    assert_eq!(verify_token(&t, &key()), Ok(c));
}

#[test]
fn token_round_trip_extreme_ids() {
    for id in [i32::MIN, i32::MAX, 0] {
        let c = TokenClaims { id, role: Role::Admin };
        let t = sign_claims(&c, &key());
        assert_eq!(verify_token(&t, &key()), Ok(c));
    }
}

#[test]
fn token_shape_is_hex_dot_hex() {
    let c = TokenClaims { id: 5, role: Role::User };
    let t = sign_claims(&c, &key());
    let parts: Vec<&str> = t.split('.').collect();
    assert_eq!(parts.len(), 2);
    assert!(parts[0].bytes().all(|b| b.is_ascii_digit() || (b'a'..=b'f').contains(&b)));
    assert!(parts[1].bytes().all(|b| b.is_ascii_digit() || (b'a'..=b'f').contains(&b)));
    // payload: four id bytes and the role name, two digits each
    assert_eq!(parts[0].len(), 2 * (4 + 4));
    // tag: a 32-byte tag, two digits each
    assert_eq!(parts[1].len(), 64);
}

#[test]
fn token_known_answer() {
    // HMAC-SHA-256 is deterministic, so the whole token is: four id bytes,
    // the role name, then the tag of that payload under the key.
    let c = TokenClaims { id: 42, role: Role::User };
    let t = sign_claims(&c, &key());
    assert_eq!(
        t,
        "0000002a75736572.6e7f2982b050e70094d1b6bd23f0bb322508429afe9c6a559bbe689b94297a1c"
    );
}

#[test]
fn token_depends_on_key() {
    let c = TokenClaims { id: 42, role: Role::User };
    let other: Vec<u8> = b"another-secret".to_vec();
    let t = sign_claims(&c, &key());
    assert_ne!(t, sign_claims(&c, &other));
    assert!(verify_token(&t, &other).is_err());
}

#[test]
fn token_tag_tamper_rejected() {
    let c = TokenClaims { id: 42, role: Role::User };
    let t = sign_claims(&c, &key());
    let mut bytes = t.into_bytes();
    let last = bytes.len() - 1;
    bytes[last] = if bytes[last] == b'0' { b'1' } else { b'0' };
    let tampered = String::from_utf8(bytes).unwrap();
    assert_eq!(verify_token(&tampered, &key()), Err(TokenError::InvalidSignature));
}

#[test]
fn token_dot_tamper_rejected() {
    let c = TokenClaims { id: 42, role: Role::User };
    let t = sign_claims(&c, &key());
    let dot = t.find('.').unwrap();
    let mut bytes = t.into_bytes();
    bytes[dot] = b'0';
    let tampered = String::from_utf8(bytes).unwrap();
    assert_eq!(verify_token(&tampered, &key()), Err(TokenError::Malformed));
}

#[test]
fn token_payload_garbling_rejected() {
    let c = TokenClaims { id: 42, role: Role::User };
    let t = sign_claims(&c, &key());
    let mut bytes = t.clone().into_bytes();
    bytes[0] = b'Z';
    let tampered = String::from_utf8(bytes).unwrap();
    assert_eq!(verify_token(&tampered, &key()), Err(TokenError::Malformed));
}

#[test]
fn malformed_tokens_rejected() {
    assert_eq!(verify_token("", &key()), Err(TokenError::Malformed));
    assert_eq!(verify_token("deadbeef", &key()), Err(TokenError::Malformed));
    assert_eq!(verify_token("xyz.123", &key()), Err(TokenError::Malformed));
    assert_eq!(verify_token("AA.00", &key()), Err(TokenError::Malformed));
    assert_eq!(verify_token("abc.00", &key()), Err(TokenError::Malformed));
    assert_eq!(verify_token("tôkén.00", &key()), Err(TokenError::Malformed));
}

#[test]
fn empty_halves_fail_the_tag_check() {
    assert_eq!(verify_token(".", &key()), Err(TokenError::InvalidSignature));
}

#[test]
fn middleware_no_header_yields_anonymous() {
    assert_eq!(authenticate(None, &key()), RequestIdentity::Anonymous);
}

#[test]
fn middleware_valid_bearer_yields_claims() {
    let c = TokenClaims { id: 9, role: Role::Admin };
    let t = sign_claims(&c, &key());
    let header = format!("Bearer {}", t);
    assert_eq!(authenticate(Some(&header), &key()), RequestIdentity::Authenticated(c));
}

#[test]
fn middleware_bad_scheme_rejected() {
    let c = TokenClaims { id: 9, role: Role::Admin };
    let t = sign_claims(&c, &key());
    let header = format!("Basic {}", t);
    assert_eq!(
        authenticate(Some(&header), &key()),
        RequestIdentity::Rejected(TokenError::Malformed)
    );
    assert_eq!(
        authenticate(Some(&t), &key()),
        RequestIdentity::Rejected(TokenError::Malformed)
    );
}

#[test]
fn middleware_tampered_bearer_rejected() {
    let c = TokenClaims { id: 9, role: Role::User };
    let t = sign_claims(&c, &key());
    let mut bytes = t.into_bytes();
    let last = bytes.len() - 1;
    bytes[last] = if bytes[last] == b'0' { b'1' } else { b'0' };
    let header = format!("Bearer {}", String::from_utf8(bytes).unwrap());
    assert_eq!(
        authenticate(Some(&header), &key()),
        RequestIdentity::Rejected(TokenError::InvalidSignature)
    );
}
