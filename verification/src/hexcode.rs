//! Lowercase hexadecimal framing for the token wire format.
//!
//! Encoding is strict: only the digits `0-9` and `a-f` are produced, and
//! decoding accepts nothing else. On that alphabet the encoding is a
//! bijection, which the lemmas below state; token tampering proofs rest on
//! them.

use vstd::prelude::*;

verus! {

/// The hex digit (as an ASCII byte) for a value below sixteen.
pub open spec fn hex_digit(n: int) -> u8
    recommends
        0 <= n < 16,
{
    if n < 10 {
        (48 + n) as u8
    } else {
        (87 + n) as u8
    }
}

/// The byte is an ASCII digit or a lowercase `a`-`f`.
pub open spec fn is_hex_byte(b: u8) -> bool {
    (48 <= b && b <= 57) || (97 <= b && b <= 102)
}

/// The value of a hex digit byte.
pub open spec fn hex_val(b: u8) -> int
    recommends
        is_hex_byte(b),
{
    if b <= 57 {
        b - 48
    } else {
        b - 87
    }
}

/// Every byte of the sequence is a lowercase hex digit.
pub open spec fn all_hex(h: Seq<u8>) -> bool {
    forall|i: int| 0 <= i < h.len() ==> is_hex_byte(#[trigger] h[i])
}

/// The hex encoding of a byte sequence: two digits per byte, high nibble
/// first.
pub open spec fn hex_of(s: Seq<u8>) -> Seq<u8> {
    Seq::new(
        2 * s.len(),
        |k: int|
            if k % 2 == 0 {
                hex_digit(s[k / 2] as int / 16)
            } else {
                hex_digit(s[k / 2] as int % 16)
            },
    )
}

/// The bytes spelled by a sequence of hex digits of even length.
pub open spec fn hex_decoded(h: Seq<u8>) -> Seq<u8>
    recommends
        h.len() % 2 == 0,
        all_hex(h),
{
    Seq::new(h.len() / 2, |i: int| (hex_val(h[2 * i]) * 16 + hex_val(h[2 * i + 1])) as u8)
}

/// Total decoding: `None` on odd length or any byte outside the strict
/// lowercase alphabet.
pub open spec fn hex_decode(h: Seq<u8>) -> Option<Seq<u8>> {
    if h.len() % 2 == 0 && all_hex(h) {
        Some(hex_decoded(h))
    } else {
        None
    }
}

/// Hex digits are hex bytes, and distinct values give distinct digits.
pub proof fn lemma_hex_digit(n: int)
    requires
        0 <= n < 16,
    ensures
        is_hex_byte(hex_digit(n)),
        hex_val(hex_digit(n)) == n,
{
}

/// Encoding then decoding gives the bytes back.
pub proof fn lemma_hex_round_trip(s: Seq<u8>)
    ensures
        hex_of(s).len() == 2 * s.len(),
        all_hex(hex_of(s)),
        hex_decode(hex_of(s)) == Some(s),
{
    let h = hex_of(s);
    assert forall|i: int| 0 <= i < h.len() implies is_hex_byte(#[trigger] h[i]) by {
        lemma_hex_digit(s[i / 2] as int / 16);
        lemma_hex_digit(s[i / 2] as int % 16);
    }
    assert forall|i: int| 0 <= i < s.len() implies hex_decoded(h)[i] == s[i] by {
        lemma_hex_digit(s[i] as int / 16);
        lemma_hex_digit(s[i] as int % 16);
        assert((2 * i) / 2 == i && (2 * i + 1) / 2 == i);
        assert(hex_val(h[2 * i]) == s[i] as int / 16 && hex_val(h[2 * i + 1]) == s[i] as int % 16);
    }
    assert(hex_decoded(h) =~= s);
}

/// Two valid digit sequences of the same even length that differ anywhere
/// decode to different byte sequences: decoding is injective.
pub proof fn lemma_hex_decode_injective(h1: Seq<u8>, h2: Seq<u8>, k: int)
    requires
        h1.len() == h2.len(),
        h1.len() % 2 == 0,
        all_hex(h1),
        all_hex(h2),
        0 <= k < h1.len(),
        h1[k] != h2[k],
    ensures
        hex_decoded(h1) != hex_decoded(h2),
{
    let i = k / 2;
    assert(0 <= 2 * i && 2 * i + 1 < h1.len());
    let a1 = hex_val(h1[2 * i]);
    let b1 = hex_val(h1[2 * i + 1]);
    let a2 = hex_val(h2[2 * i]);
    let b2 = hex_val(h2[2 * i + 1]);
    assert(0 <= a1 < 16 && 0 <= b1 < 16 && 0 <= a2 < 16 && 0 <= b2 < 16);
    assert(a1 != a2 || b1 != b2) by {
        assert(k == 2 * i || k == 2 * i + 1);
        assert(hex_val(h1[k]) != hex_val(h2[k]));
    }
    assert(a1 * 16 + b1 != a2 * 16 + b2);
    assert(hex_decoded(h1)[i] != hex_decoded(h2)[i]);
}

/// Exec mirror of [`is_hex_byte`].
pub fn hex_byte_check(b: u8) -> (r: bool)
    ensures
        r == is_hex_byte(b),
{
    (48 <= b && b <= 57) || (97 <= b && b <= 102)
}

/// Exec mirror of [`hex_digit`].
fn hex_digit_exec(n: u8) -> (r: u8)
    requires
        n < 16,
    ensures
        r == hex_digit(n as int),
{
    if n < 10 {
        48 + n
    } else {
        87 + n
    }
}

/// Exec mirror of [`hex_val`].
fn hex_val_exec(b: u8) -> (r: u8)
    requires
        is_hex_byte(b),
    ensures
        r == hex_val(b),
{
    if b <= 57 {
        b - 48
    } else {
        b - 87
    }
}

/// Appends the hex encoding of `s` to `out`.
pub fn hex_encode_into(s: &Vec<u8>, out: &mut Vec<u8>)
    ensures
        final(out)@ == old(out)@ + hex_of(s@),
{
    let ghost base = out@;
    let mut i: usize = 0;
    while i < s.len()
        invariant
            0 <= i <= s@.len(),
            out@.len() == base.len() + 2 * i,
            forall|k: int| 0 <= k < base.len() ==> out@[k] == base[k],
            forall|k: int| 0 <= k < 2 * i ==> out@[base.len() + k] == hex_of(s@)[k],
        decreases s@.len() - i,
    {
        let b = s[i];
        out.push(hex_digit_exec(b / 16));
        out.push(hex_digit_exec(b % 16));
        i = i + 1;
    }
    assert(out@ =~= base + hex_of(s@));
}

/// Decodes the hex digits of `t[start..end]`, or reports that the range is
/// not a valid even-length string of lowercase hex digits.
pub fn hex_decode_range(t: &[u8], start: usize, end: usize) -> (r: Option<Vec<u8>>)
    requires
        start <= end <= t@.len(),
    ensures
        match r {
            Some(v) => hex_decode(t@.subrange(start as int, end as int)) == Some(v@),
            None => hex_decode(t@.subrange(start as int, end as int)) is None,
        },
{
    let ghost sub = t@.subrange(start as int, end as int);
    let len = end - start;
    if len % 2 != 0 {
        return None;
    }
    let mut out: Vec<u8> = Vec::new();
    let mut i: usize = 0;
    while i < len / 2
        invariant
            start <= end <= t@.len(),
            len == end - start,
            len % 2 == 0,
            sub == t@.subrange(start as int, end as int),
            0 <= i <= len / 2,
            out@.len() == i,
            forall|k: int| 0 <= k < 2 * i ==> is_hex_byte(#[trigger] sub[k]),
            forall|k: int| 0 <= k < i ==> out@[k] == (hex_val(sub[2 * k]) * 16 + hex_val(
                sub[2 * k + 1],
            )) as u8,
        decreases len / 2 - i,
    {
        let hi = t[start + 2 * i];
        let lo = t[start + 2 * i + 1];
        assert(hi == sub[2 * i] && lo == sub[2 * i + 1]);
        if !hex_byte_check(hi) || !hex_byte_check(lo) {
            assert(!all_hex(sub));
            return None;
        }
        out.push(hex_val_exec(hi) * 16 + hex_val_exec(lo));
        i = i + 1;
    }
    assert(all_hex(sub));
    assert(out@ =~= hex_decoded(sub));
    Some(out)
}

} // verus!
