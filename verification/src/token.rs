//! Signing and verification of bearer tokens.
//!
//! A token is `hex(payload) "." hex(tag)`: the canonical payload bytes of
//! the claims, hex-encoded, then a dot, then the hex-encoded HMAC-SHA-256
//! tag of the payload under the process secret. The payload holds the user
//! id as four big-endian bytes followed by the wire name of the role.
//! Payload and tag are both authenticated; verification recomputes the tag
//! before it even parses the payload.

use vstd::prelude::*;

use crate::auth::Role;
use crate::auth::TokenClaims;
use crate::hexcode::all_hex;
use crate::hexcode::hex_byte_check;
use crate::hexcode::hex_decode;
use crate::hexcode::hex_decode_range;
use crate::hexcode::hex_decoded;
use crate::hexcode::hex_encode_into;
use crate::hexcode::hex_of;
use crate::hexcode::is_hex_byte;
use crate::hexcode::lemma_hex_decode_injective;
use crate::hexcode::lemma_hex_round_trip;
use crate::mac::hmac_sha256;
use crate::mac::hmac_sha256_of;
use crate::text::ascii_to_string;
use crate::text::bytes_eq;
use crate::text::lemma_ascii_bytes_chars;
use vstd::arithmetic::div_mod::lemma_fundamental_div_mod_converse_div;
use vstd::arithmetic::div_mod::lemma_fundamental_div_mod_converse_mod;
use vstd::utf8::encode_utf8;

verus! {

/// Why a token failed to verify.
#[derive(Clone, Copy, PartialEq, Eq, Structural, Debug)]
pub enum TokenError {
    /// The token is not `hex "." hex` with a parseable payload.
    Malformed,
    /// The tag does not match the payload under the given secret.
    InvalidSignature,
}

/// The byte that separates payload from tag.
pub const DOT: u8 = 46;

/// The wire form of a role.
pub open spec fn role_wire(r: Role) -> Seq<u8> {
    match r {
        Role::User => seq![117u8, 115u8, 101u8, 114u8],
        Role::Admin => seq![97u8, 100u8, 109u8, 105u8, 110u8],
    }
}

/// The unsigned 32-bit image of a user id.
pub open spec fn id_repr(id: int) -> int
    recommends
        -0x8000_0000 <= id < 0x8000_0000,
{
    if id >= 0 {
        id
    } else {
        id + 0x1_0000_0000
    }
}

/// The signed id behind an unsigned 32-bit image.
pub open spec fn id_of_repr(v: int) -> int
    recommends
        0 <= v < 0x1_0000_0000,
{
    if v >= 0x8000_0000 {
        v - 0x1_0000_0000
    } else {
        v
    }
}

/// Four big-endian bytes of a value below two to the thirty-second.
pub open spec fn be32(u: int) -> Seq<u8>
    recommends
        0 <= u < 0x1_0000_0000,
{
    let r0 = u % 0x100_0000;
    let r1 = r0 % 0x1_0000;
    seq![(u / 0x100_0000) as u8, (r0 / 0x1_0000) as u8, (r1 / 0x100) as u8, (r1 % 0x100) as u8]
}

/// The value spelled by the first four bytes of a sequence.
pub open spec fn be32_val(p: Seq<u8>) -> int
    recommends
        p.len() >= 4,
{
    p[0] as int * 0x100_0000 + p[1] as int * 0x1_0000 + p[2] as int * 0x100 + p[3] as int
}

/// The canonical payload bytes of a claims value.
pub open spec fn payload_of(c: TokenClaims) -> Seq<u8> {
    be32(id_repr(c.id as int)) + role_wire(c.role)
}

/// Parses canonical payload bytes; accepts exactly the payloads that
/// [`payload_of`] produces.
pub open spec fn parse_payload(p: Seq<u8>) -> Option<TokenClaims> {
    if p.len() < 4 {
        None
    } else {
        let id = id_of_repr(be32_val(p)) as i32;
        let rest = p.subrange(4, p.len() as int);
        if rest == role_wire(Role::User) {
            Some(TokenClaims { id, role: Role::User })
        } else if rest == role_wire(Role::Admin) {
            Some(TokenClaims { id, role: Role::Admin })
        } else {
            None
        }
    }
}

/// The bytes of the token issued for `c` under `key`.
pub open spec fn token_bytes(c: TokenClaims, key: Seq<u8>) -> Seq<u8> {
    hex_of(payload_of(c)) + seq![DOT] + hex_of(hmac_sha256_of(key, payload_of(c)))
}

/// The token as a character string.
pub open spec fn token_chars(c: TokenClaims, key: Seq<u8>) -> Seq<char> {
    token_bytes(c, key).map_values(|b: u8| b as char)
}

/// Position of the first dot, or a negative value when there is none.
pub open spec fn dot_index(t: Seq<u8>) -> int
    decreases t.len(),
{
    if t.len() == 0 {
        -1
    } else if t[0] == DOT {
        0
    } else {
        let r = dot_index(t.drop_first());
        if r < 0 {
            -1
        } else {
            r + 1
        }
    }
}

/// What verification returns for any token bytes and key: split at the
/// first dot, decode both halves from hex, check the tag against the
/// recomputed one, then parse the payload.
pub open spec fn spec_verify(t: Seq<u8>, key: Seq<u8>) -> Result<TokenClaims, TokenError> {
    let d = dot_index(t);
    if d < 0 {
        Err(TokenError::Malformed)
    } else {
        let head = hex_decode(t.subrange(0, d));
        let tail = hex_decode(t.subrange(d + 1, t.len() as int));
        if head is None || tail is None {
            Err(TokenError::Malformed)
        } else {
            let payload = head->Some_0;
            let tag = tail->Some_0;
            if tag != hmac_sha256_of(key, payload) {
                Err(TokenError::InvalidSignature)
            } else {
                match parse_payload(payload) {
                    Some(c) => Ok(c),
                    None => Err(TokenError::Malformed),
                }
            }
        }
    }
}

/// A dot at `d` with none before it is the first dot.
pub proof fn lemma_dot_index_some(t: Seq<u8>, d: int)
    requires
        0 <= d < t.len(),
        t[d] == DOT,
        forall|k: int| 0 <= k < d ==> t[k] != DOT,
    ensures
        dot_index(t) == d,
    decreases t.len(),
{
    if d > 0 {
        let u = t.drop_first();
        assert forall|k: int| 0 <= k < d - 1 implies u[k] != DOT by {
            assert(u[k] == t[k + 1]);
        }
        assert(u[d - 1] == t[d]);
        lemma_dot_index_some(u, d - 1);
    }
}

/// A sequence without a dot has no dot index.
pub proof fn lemma_dot_index_none(t: Seq<u8>)
    requires
        forall|k: int| 0 <= k < t.len() ==> t[k] != DOT,
    ensures
        dot_index(t) < 0,
    decreases t.len(),
{
    if t.len() > 0 {
        let u = t.drop_first();
        assert forall|k: int| 0 <= k < u.len() implies u[k] != DOT by {
            assert(u[k] == t[k + 1]);
        }
        lemma_dot_index_none(u);
    }
}

/// The two byte orders invert each other.
pub proof fn lemma_be32_round_trip(u: int)
    requires
        0 <= u < 0x1_0000_0000,
    ensures
        be32(u).len() == 4,
        be32_val(be32(u)) == u,
{
    let r0 = u % 0x100_0000;
    let r1 = r0 % 0x1_0000;
    assert(u == (u / 0x100_0000) * 0x100_0000 + r0);
    assert(r0 == (r0 / 0x1_0000) * 0x1_0000 + r1);
    assert(r1 == (r1 / 0x100) * 0x100 + r1 % 0x100);
}

/// Parsing the canonical payload of a claims value gives the value back.
pub proof fn lemma_payload_round_trip(c: TokenClaims)
    ensures
        4 <= payload_of(c).len() <= 9,
        parse_payload(payload_of(c)) == Some(c),
{
    let u = id_repr(c.id as int);
    lemma_be32_round_trip(u);
    let p = payload_of(c);
    assert(p.subrange(4, p.len() as int) =~= role_wire(c.role));
    assert(p[0] == be32(u)[0] && p[1] == be32(u)[1] && p[2] == be32(u)[2] && p[3] == be32(u)[3]);
    assert(be32_val(p) == be32_val(be32(u)));
    assert(id_of_repr(u) == c.id as int);
    assert(role_wire(Role::User).len() != role_wire(Role::Admin).len());
}

/// Four bytes spell back the value they were taken from.
proof fn lemma_be32_converse(p: Seq<u8>)
    requires
        p.len() >= 4,
    ensures
        0 <= be32_val(p) < 0x1_0000_0000,
        be32(be32_val(p)) == seq![p[0], p[1], p[2], p[3]],
{
    let v = be32_val(p);
    let t1 = p[1] as int * 0x1_0000 + p[2] as int * 0x100 + p[3] as int;
    let t2 = p[2] as int * 0x100 + p[3] as int;
    assert(v == p[0] as int * 0x100_0000 + t1);
    assert(0 <= t1 < 0x100_0000);
    lemma_fundamental_div_mod_converse_div(v, 0x100_0000, p[0] as int, t1);
    lemma_fundamental_div_mod_converse_mod(v, 0x100_0000, p[0] as int, t1);
    assert(t1 == p[1] as int * 0x1_0000 + t2);
    assert(0 <= t2 < 0x1_0000);
    lemma_fundamental_div_mod_converse_div(t1, 0x1_0000, p[1] as int, t2);
    lemma_fundamental_div_mod_converse_mod(t1, 0x1_0000, p[1] as int, t2);
    assert(t2 == p[2] as int * 0x100 + p[3] as int);
    lemma_fundamental_div_mod_converse_div(t2, 0x100, p[2] as int, p[3] as int);
    lemma_fundamental_div_mod_converse_mod(t2, 0x100, p[2] as int, p[3] as int);
    assert(be32(v) =~= seq![p[0], p[1], p[2], p[3]]);
}

/// Parsing accepts only canonical payloads: whatever parses to a claims
/// value is that value's own payload.
pub proof fn lemma_parse_payload_canonical(p: Seq<u8>, c: TokenClaims)
    requires
        parse_payload(p) == Some(c),
    ensures
        p == payload_of(c),
{
    let v = be32_val(p);
    lemma_be32_converse(p);
    assert(c.id as int == id_of_repr(v));
    assert(id_repr(id_of_repr(v)) == v);
    let rest = p.subrange(4, p.len() as int);
    assert(rest == role_wire(c.role));
    assert(payload_of(c) =~= seq![p[0], p[1], p[2], p[3]] + rest);
    assert(p =~= seq![p[0], p[1], p[2], p[3]] + rest);
}

/// Every byte of a token is below 128: hex digits and the dot.
pub proof fn lemma_token_bytes_ascii(c: TokenClaims, key: Seq<u8>)
    ensures
        forall|i: int| 0 <= i < token_bytes(c, key).len() ==> token_bytes(c, key)[i] < 128,
{
    let pl = payload_of(c);
    let tag = hmac_sha256_of(key, pl);
    let tb = token_bytes(c, key);
    lemma_hex_round_trip(pl);
    lemma_hex_round_trip(tag);
    assert forall|i: int| 0 <= i < tb.len() implies tb[i] < 128 by {
        let h = hex_of(pl);
        let g = hex_of(tag);
        if i < h.len() {
            assert(tb[i] == h[i]);
            assert(is_hex_byte(h[i]));
        } else if i == h.len() {
            assert(tb[i] == DOT);
        } else {
            assert(tb[i] == g[i - h.len() - 1]);
            assert(is_hex_byte(g[i - h.len() - 1]));
        }
    }
}

/// The dot of a well-formed token stands right after the payload digits.
pub proof fn lemma_token_dot(c: TokenClaims, key: Seq<u8>)
    ensures
        dot_index(token_bytes(c, key)) == 2 * payload_of(c).len(),
        token_bytes(c, key).len() == 2 * payload_of(c).len() + 1 + 2 * hmac_sha256_of(
            key,
            payload_of(c),
        ).len(),
{
    let pl = payload_of(c);
    let tag = hmac_sha256_of(key, pl);
    let tb = token_bytes(c, key);
    let h = hex_of(pl);
    lemma_hex_round_trip(pl);
    assert(tb[h.len() as int] == DOT);
    assert forall|k: int| 0 <= k < h.len() implies tb[k] != DOT by {
        assert(tb[k] == h[k]);
        assert(is_hex_byte(h[k]));
    }
    lemma_dot_index_some(tb, h.len() as int);
}

/// Round trip: verifying a token produced by signing yields exactly the
/// claims that were signed, whatever the key and the claims.
pub proof fn lemma_token_round_trip(c: TokenClaims, key: Seq<u8>)
    ensures
        spec_verify(token_bytes(c, key), key) == Ok::<TokenClaims, TokenError>(c),
{
    let pl = payload_of(c);
    let tag = hmac_sha256_of(key, pl);
    let tb = token_bytes(c, key);
    let h = hex_of(pl);
    let g = hex_of(tag);
    lemma_hex_round_trip(pl);
    lemma_hex_round_trip(tag);
    lemma_token_dot(c, key);
    let d = dot_index(tb);
    assert(tb.subrange(0, d) =~= h);
    assert(tb.subrange(d + 1, tb.len() as int) =~= g);
    lemma_payload_round_trip(c);
}

/// The string form of a signed token encodes back to its bytes.
pub proof fn lemma_token_chars_bytes(c: TokenClaims, key: Seq<u8>)
    ensures
        encode_utf8(token_chars(c, key)) == token_bytes(c, key),
{
    lemma_token_bytes_ascii(c, key);
    lemma_ascii_bytes_chars(token_bytes(c, key));
}

/// The round trip at the string level: the token string that signing
/// returns, read back as UTF-8 bytes the way verification reads it, yields
/// exactly the claims that were signed, for every claims value and key.
pub proof fn lemma_sign_verify_round_trip(c: TokenClaims, key: Seq<u8>)
    ensures
        spec_verify(encode_utf8(token_chars(c, key)), key) == Ok::<TokenClaims, TokenError>(c),
{
    lemma_token_chars_bytes(c, key);
    lemma_token_round_trip(c, key);
}

/// Tamper evidence: changing any single token byte at or after the dot
/// makes verification fail, and so does changing a payload byte to anything
/// outside the hex alphabet. (A change of a payload byte to another hex
/// digit alters the payload, and rejecting it rests on the collision
/// resistance of the tag, which no proof here can supply.)
pub proof fn lemma_tamper_rejected(c: TokenClaims, key: Seq<u8>, i: int, b: u8)
    requires
        0 <= i < token_bytes(c, key).len(),
        b != token_bytes(c, key)[i],
        i >= 2 * payload_of(c).len() || !is_hex_byte(b),
    ensures
        spec_verify(token_bytes(c, key).update(i, b), key) is Err,
{
    let pl = payload_of(c);
    let tag = hmac_sha256_of(key, pl);
    let tb = token_bytes(c, key);
    let h = hex_of(pl);
    let g = hex_of(tag);
    let plh = h.len() as int;
    let n = tb.len() as int;
    let t = tb.update(i, b);
    lemma_hex_round_trip(pl);
    lemma_hex_round_trip(tag);
    lemma_token_dot(c, key);
    assert(n == plh + 1 + g.len());
    assert(tb[plh] == DOT);
    assert forall|k: int| 0 <= k < plh implies tb[k] == h[k] by {}
    assert forall|k: int| plh < k < n implies tb[k] == g[k - plh - 1] by {}
    if i == plh {
        assert forall|k: int| 0 <= k < t.len() implies t[k] != DOT by {
            if k < plh {
                assert(is_hex_byte(h[k]));
            } else if k > plh {
                assert(is_hex_byte(g[k - plh - 1]));
            }
        }
        lemma_dot_index_none(t);
    } else if i > plh {
        assert forall|k: int| 0 <= k < plh implies t[k] != DOT by {
            assert(is_hex_byte(h[k]));
        }
        lemma_dot_index_some(t, plh);
        assert(t.subrange(0, plh) =~= h);
        let tail = t.subrange(plh + 1, n);
        let j = i - plh - 1;
        assert(tail =~= g.update(j, b));
        if !is_hex_byte(b) {
            assert(tail[j] == b);
            assert(!all_hex(tail));
        } else {
            assert forall|k: int| 0 <= k < tail.len() implies is_hex_byte(#[trigger] tail[k]) by {
                if k != j {
                    assert(tail[k] == g[k]);
                }
            }
            assert(b != g[j]);
            lemma_hex_decode_injective(tail, g, j);
            assert(hex_decode(t.subrange(0, plh)) == Some(pl));
            assert(hex_decode(tail) == Some(hex_decoded(tail)));
            assert(hex_decoded(tail) != tag);
        }
    } else {
        if b == DOT {
            assert forall|k: int| 0 <= k < i implies t[k] != DOT by {
                assert(t[k] == h[k]);
                assert(is_hex_byte(h[k]));
            }
            lemma_dot_index_some(t, i);
            let tail = t.subrange(i + 1, n);
            assert(tail[plh - i - 1] == DOT);
            assert(!is_hex_byte(DOT));
            assert(!all_hex(tail));
        } else {
            assert forall|k: int| 0 <= k < plh implies t[k] != DOT by {
                if k != i {
                    assert(t[k] == h[k]);
                    assert(is_hex_byte(h[k]));
                }
            }
            assert(t[plh] == DOT);
            lemma_dot_index_some(t, plh);
            let head = t.subrange(0, plh);
            assert(head[i] == b);
            assert(!all_hex(head));
        }
    }
}

/// Tamper evidence for single-bit flips: flipping any bit of a byte at or
/// after the dot, or flipping a payload-region bit so that the byte leaves
/// the hex alphabet, makes verification fail.
pub proof fn lemma_bit_flip_rejected(c: TokenClaims, key: Seq<u8>, i: int, j: u8)
    requires
        0 <= i < token_bytes(c, key).len(),
        j < 8,
        i >= 2 * payload_of(c).len() || !is_hex_byte(token_bytes(c, key)[i] ^ (1u8 << j)),
    ensures
        spec_verify(
            token_bytes(c, key).update(i, token_bytes(c, key)[i] ^ (1u8 << j)),
            key,
        ) is Err,
{
    let x = token_bytes(c, key)[i];
    assert(x ^ (1u8 << j) != x) by (bit_vector)
        requires
            j < 8,
    ;
    lemma_tamper_rejected(c, key, i, x ^ (1u8 << j));
}

/// No change of a single token byte can verify back to the signed claims:
/// verification either fails or yields different claims. (Whether a
/// payload-region change can produce a token that verifies at all rests on
/// the tag's collision resistance, which no proof can settle; that it can
/// never yield the original claims is settled here.)
pub proof fn lemma_mutation_never_yields_signed_claims(
    c: TokenClaims,
    key: Seq<u8>,
    i: int,
    b: u8,
)
    requires
        0 <= i < token_bytes(c, key).len(),
        b != token_bytes(c, key)[i],
    ensures
        spec_verify(token_bytes(c, key).update(i, b), key) != Ok::<TokenClaims, TokenError>(c),
{
    let pl = payload_of(c);
    let tag = hmac_sha256_of(key, pl);
    let tb = token_bytes(c, key);
    let h = hex_of(pl);
    let g = hex_of(tag);
    let plh = h.len() as int;
    let n = tb.len() as int;
    let t = tb.update(i, b);
    if i >= 2 * pl.len() || !is_hex_byte(b) {
        lemma_tamper_rejected(c, key, i, b);
    } else {
        lemma_hex_round_trip(pl);
        lemma_hex_round_trip(tag);
        lemma_token_dot(c, key);
        assert forall|k: int| 0 <= k < plh implies t[k] != DOT by {
            if k != i {
                assert(t[k] == h[k]);
                assert(is_hex_byte(h[k]));
            }
        }
        assert(t[plh] == DOT);
        lemma_dot_index_some(t, plh);
        let head = t.subrange(0, plh);
        assert(head =~= h.update(i, b));
        assert forall|k: int| 0 <= k < head.len() implies is_hex_byte(#[trigger] head[k]) by {
            if k != i {
                assert(head[k] == h[k]);
            }
        }
        let payload2 = hex_decoded(head);
        lemma_hex_decode_injective(head, h, i);
        assert(payload2 != pl);
        let tail = t.subrange(plh + 1, n);
        assert(tail =~= g);
        assert(hex_decode(head) == Some(payload2));
        assert(hex_decode(tail) == Some(tag));
        if tag != hmac_sha256_of(key, payload2) {
            assert(spec_verify(t, key) == Err::<TokenClaims, TokenError>(
                TokenError::InvalidSignature,
            ));
        } else {
            match parse_payload(payload2) {
                None => {
                    assert(spec_verify(t, key) == Err::<TokenClaims, TokenError>(
                        TokenError::Malformed,
                    ));
                },
                Some(c2) => {
                    lemma_parse_payload_canonical(payload2, c2);
                    assert(payload_of(c2) == payload2);
                    assert(payload_of(c) == pl);
                    assert(c2 != c);
                    assert(spec_verify(t, key) == Ok::<TokenClaims, TokenError>(c2));
                },
            }
        }
    }
}

/// The bit-flip face of the same fact: flipping any single bit anywhere in
/// a token never verifies back to the signed claims.
pub proof fn lemma_bit_flip_never_yields_signed_claims(
    c: TokenClaims,
    key: Seq<u8>,
    i: int,
    j: u8,
)
    requires
        0 <= i < token_bytes(c, key).len(),
        j < 8,
    ensures
        spec_verify(token_bytes(c, key).update(i, token_bytes(c, key)[i] ^ (1u8 << j)), key)
            != Ok::<TokenClaims, TokenError>(c),
{
    let x = token_bytes(c, key)[i];
    assert(x ^ (1u8 << j) != x) by (bit_vector)
        requires
            j < 8,
    ;
    lemma_mutation_never_yields_signed_claims(c, key, i, x ^ (1u8 << j));
}

/// Builds the canonical payload bytes of a claims value.
fn payload_build(c: &TokenClaims) -> (r: Vec<u8>)
    ensures
        r@ == payload_of(*c),
{
    let u: u32 = if c.id >= 0 {
        c.id as u32
    } else {
        ((c.id as i64) + 0x1_0000_0000i64) as u32
    };
    assert(u as int == id_repr(c.id as int));
    let r0: u32 = u % 0x100_0000;
    let r1: u32 = r0 % 0x1_0000;
    let mut out: Vec<u8> = Vec::new();
    out.push((u / 0x100_0000) as u8);
    out.push((r0 / 0x1_0000) as u8);
    out.push((r1 / 0x100) as u8);
    out.push((r1 % 0x100) as u8);
    match c.role {
        Role::User => {
            out.push(117);
            out.push(115);
            out.push(101);
            out.push(114);
        },
        Role::Admin => {
            out.push(97);
            out.push(100);
            out.push(109);
            out.push(105);
            out.push(110);
        },
    }
    assert(out@ =~= payload_of(*c));
    out
}

/// Parses canonical payload bytes.
fn parse_payload_exec(p: &Vec<u8>) -> (r: Option<TokenClaims>)
    ensures
        r == parse_payload(p@),
{
    if p.len() < 4 {
        return None;
    }
    let v: u32 = (p[0] as u32) * 0x100_0000 + (p[1] as u32) * 0x1_0000 + (p[2] as u32) * 0x100 + (
    p[3] as u32);
    assert(v as int == be32_val(p@));
    let id: i32 = if v >= 0x8000_0000 {
        ((v as i64) - 0x1_0000_0000i64) as i32
    } else {
        v as i32
    };
    assert(id as int == id_of_repr(v as int));
    let ghost rest = p@.subrange(4, p@.len() as int);
    if p.len() == 8 && p[4] == 117 && p[5] == 115 && p[6] == 101 && p[7] == 114 {
        assert(rest =~= role_wire(Role::User));
        Some(TokenClaims { id, role: Role::User })
    } else if p.len() == 9 && p[4] == 97 && p[5] == 100 && p[6] == 109 && p[7] == 105 && p[8]
        == 110 {
        assert(rest =~= role_wire(Role::Admin));
        Some(TokenClaims { id, role: Role::Admin })
    } else {
        proof {
            assert(rest.len() == p@.len() - 4);
            assert(role_wire(Role::User).len() == 4);
            assert(role_wire(Role::Admin).len() == 5);
            if rest == role_wire(Role::User) {
                assert(rest.len() == 4);
                assert(p@.len() == 8);
                assert(p@[4] == rest[0] && p@[5] == rest[1] && p@[6] == rest[2] && p@[7]
                    == rest[3]);
            }
            if rest == role_wire(Role::Admin) {
                assert(rest.len() == 5);
                assert(p@.len() == 9);
                assert(p@[4] == rest[0] && p@[5] == rest[1] && p@[6] == rest[2] && p@[7] == rest[3]
                    && p@[8] == rest[4]);
            }
        }
        None
    }
}

/// Signs a claims value under the process secret: the only way a valid
/// token comes to be.
pub fn sign_claims(c: &TokenClaims, key: &Vec<u8>) -> (r: String)
    ensures
        r@ == token_chars(*c, key@),
{
    let payload = payload_build(c);
    let tag = hmac_sha256(key, &payload);
    let mut tok: Vec<u8> = Vec::new();
    hex_encode_into(&payload, &mut tok);
    tok.push(DOT);
    hex_encode_into(&tag, &mut tok);
    assert(tok@ =~= token_bytes(*c, key@));
    proof {
        lemma_token_bytes_ascii(*c, key@);
    }
    let s = ascii_to_string(tok);
    proof {
        assert(s@ =~= token_chars(*c, key@));
    }
    s
}

/// Verifies raw token bytes against the secret.
pub fn verify_token_bytes(t: &[u8], key: &Vec<u8>) -> (r: Result<TokenClaims, TokenError>)
    ensures
        r == spec_verify(t@, key@),
{
    let n = t.len();
    let mut d: usize = 0;
    while d < n && t[d] != DOT
        invariant
            0 <= d <= n,
            n == t@.len(),
            forall|k: int| 0 <= k < d ==> t@[k] != DOT,
        decreases n - d,
    {
        d = d + 1;
    }
    if d == n {
        proof {
            lemma_dot_index_none(t@);
        }
        return Err(TokenError::Malformed);
    }
    proof {
        lemma_dot_index_some(t@, d as int);
    }
    let head = hex_decode_range(t, 0, d);
    let tail = hex_decode_range(t, d + 1, n);
    match (head, tail) {
        (Some(payload), Some(tag)) => {
            let expect = hmac_sha256(key, &payload);
            if !bytes_eq(&tag, &expect) {
                Err(TokenError::InvalidSignature)
            } else {
                match parse_payload_exec(&payload) {
                    Some(c) => Ok(c),
                    None => Err(TokenError::Malformed),
                }
            }
        },
        _ => Err(TokenError::Malformed),
    }
}

/// Verifies a bearer token string against the secret.
pub fn verify_token(token: &str, key: &Vec<u8>) -> (r: Result<TokenClaims, TokenError>)
    ensures
        r == spec_verify(encode_utf8(token@), key@),
{
    verify_token_bytes(token.as_bytes(), key)
}

} // verus!
