//! The address pattern that registration enforces.
//!
//! An address is one or more word, dot or dash characters, an `@`, again
//! one or more word, dot or dash characters, then a dot and a top-level
//! label of two to four ASCII letters. [`valid_email`] states the pattern
//! over the UTF-8 bytes of the address. The character classes here are
//! ASCII by choice — narrower than a Unicode-aware word class, which would
//! also admit letters beyond ASCII — so an address with such a letter is
//! rejected.

use vstd::prelude::*;

use vstd::slice::slice_subrange;
use vstd::utf8::encode_utf8;

verus! {

/// A letter, digit, underscore, dot or dash.
pub open spec fn is_word_byte(b: u8) -> bool {
    (48 <= b && b <= 57) || (65 <= b && b <= 90) || (97 <= b && b <= 122) || b == 95 || b == 46
        || b == 45
}

/// An ASCII letter.
pub open spec fn is_alpha_byte(b: u8) -> bool {
    (65 <= b && b <= 90) || (97 <= b && b <= 122)
}

/// The domain part: word characters, a dot, then two to four letters.
pub open spec fn domain_ok(d: Seq<u8>) -> bool {
    exists|p: int|
        {
            &&& 1 <= p < d.len()
            &&& d[p] == 46
            &&& (forall|k: int| 0 <= k < p ==> is_word_byte(#[trigger] d[k]))
            &&& 2 <= d.len() - p - 1 <= 4
            &&& (forall|k: int| p < k < d.len() ==> is_alpha_byte(#[trigger] d[k]))
        }
}

/// The whole address pattern.
pub open spec fn valid_email(s: Seq<u8>) -> bool {
    exists|a: int|
        {
            &&& 1 <= a < s.len()
            &&& s[a] == 64
            &&& (forall|k: int| 0 <= k < a ==> is_word_byte(#[trigger] s[k]))
            &&& domain_ok(s.skip(a + 1))
        }
}

/// Exec mirror of [`is_word_byte`].
fn word_byte_check(b: u8) -> (r: bool)
    ensures
        r == is_word_byte(b),
{
    (48 <= b && b <= 57) || (65 <= b && b <= 90) || (97 <= b && b <= 122) || b == 95 || b == 46
        || b == 45
}

/// Exec mirror of [`is_alpha_byte`].
fn alpha_byte_check(b: u8) -> (r: bool)
    ensures
        r == is_alpha_byte(b),
{
    (65 <= b && b <= 90) || (97 <= b && b <= 122)
}

/// In a domain whose last `l` bytes are letters and whose byte before them
/// is not, any split position the pattern accepts is exactly the byte
/// before that run.
proof fn lemma_domain_split_position(d: Seq<u8>, l: int, p: int)
    requires
        0 <= l <= d.len(),
        forall|j: int| d.len() - l <= j < d.len() ==> is_alpha_byte(#[trigger] d[j]),
        l == d.len() || !is_alpha_byte(d[d.len() - 1 - l]),
        1 <= p < d.len(),
        d[p] == 46,
        forall|k: int| p < k < d.len() ==> is_alpha_byte(#[trigger] d[k]),
    ensures
        p == d.len() - 1 - l,
{
    let n = d.len() as int;
    if p < n - 1 - l {
        assert(is_alpha_byte(d[n - 1 - l]));
        assert(false);
    }
    if p > n - 1 - l {
        assert(is_alpha_byte(d[p]));
        assert(false);
    }
}

/// Checks the domain part against its pattern.
fn domain_check(d: &[u8]) -> (r: bool)
    ensures
        r == domain_ok(d@),
{
    let n = d.len();
    let mut l: usize = 0;
    while l < n && alpha_byte_check(d[n - 1 - l])
        invariant
            0 <= l <= n,
            n == d@.len(),
            forall|j: int| n - l <= j < n ==> is_alpha_byte(#[trigger] d@[j]),
        decreases n - l,
    {
        l = l + 1;
    }
    if l == n || !(2 <= l && l <= 4) || d[n - 1 - l] != 46 || n - 1 - l < 1 {
        proof {
            if domain_ok(d@) {
                let p = choose|p: int|
                    {
                        &&& 1 <= p < d@.len()
                        &&& d@[p] == 46
                        &&& (forall|k: int| 0 <= k < p ==> is_word_byte(#[trigger] d@[k]))
                        &&& 2 <= d@.len() - p - 1 <= 4
                        &&& (forall|k: int| p < k < d@.len() ==> is_alpha_byte(#[trigger] d@[k]))
                    };
                lemma_domain_split_position(d@, l as int, p);
                assert(false);
            }
        }
        return false;
    }
    let q = n - 1 - l;
    let mut k: usize = 0;
    while k < q && word_byte_check(d[k])
        invariant
            0 <= k <= q,
            q == n - 1 - l,
            n == d@.len(),
            forall|j: int| 0 <= j < k ==> is_word_byte(#[trigger] d@[j]),
        decreases q - k,
    {
        k = k + 1;
    }
    if k < q {
        proof {
            if domain_ok(d@) {
                let p = choose|p: int|
                    {
                        &&& 1 <= p < d@.len()
                        &&& d@[p] == 46
                        &&& (forall|k: int| 0 <= k < p ==> is_word_byte(#[trigger] d@[k]))
                        &&& 2 <= d@.len() - p - 1 <= 4
                        &&& (forall|k: int| p < k < d@.len() ==> is_alpha_byte(#[trigger] d@[k]))
                    };
                lemma_domain_split_position(d@, l as int, p);
                assert(is_word_byte(d@[k as int]));
                assert(false);
            }
        }
        return false;
    }
    proof {
        let p = q as int;
        assert(1 <= p < d@.len());
        assert(d@[p] == 46);
        assert(2 <= d@.len() - p - 1 <= 4);
        assert(forall|j: int| p < j < d@.len() ==> is_alpha_byte(#[trigger] d@[j]));
        assert(domain_ok(d@));
    }
    true
}

/// Checks an address against the pattern registration enforces.
pub fn is_valid_email(email: &str) -> (r: bool)
    ensures
        r == valid_email(encode_utf8(email@)),
{
    let b = email.as_bytes();
    let n = b.len();
    let mut a: usize = 0;
    while a < n && word_byte_check(b[a])
        invariant
            0 <= a <= n,
            n == b@.len(),
            forall|k: int| 0 <= k < a ==> is_word_byte(#[trigger] b@[k]),
        decreases n - a,
    {
        a = a + 1;
    }
    if a == 0 || a == n || b[a] != 64 {
        proof {
            if valid_email(b@) {
                let w = choose|w: int|
                    {
                        &&& 1 <= w < b@.len()
                        &&& b@[w] == 64
                        &&& (forall|k: int| 0 <= k < w ==> is_word_byte(#[trigger] b@[k]))
                        &&& domain_ok(b@.skip(w + 1))
                    };
                if w < a {
                    assert(is_word_byte(b@[w]));
                    assert(false);
                }
                if w > a {
                    assert(is_word_byte(b@[a as int]));
                }
                assert(w == a);
                assert(false);
            }
        }
        return false;
    }
    let d = slice_subrange(b, a + 1, n);
    assert(d@ =~= b@.skip(a + 1));
    let ok = domain_check(d);
    proof {
        if ok {
            assert(valid_email(b@)) by {
                assert(1 <= a < b@.len() && b@[a as int] == 64);
                assert(domain_ok(b@.skip(a + 1)));
            }
        }
        if !ok && valid_email(b@) {
            let w = choose|w: int|
                {
                    &&& 1 <= w < b@.len()
                    &&& b@[w] == 64
                    &&& (forall|k: int| 0 <= k < w ==> is_word_byte(#[trigger] b@[k]))
                    &&& domain_ok(b@.skip(w + 1))
                };
            if w < a {
                assert(is_word_byte(b@[w]));
                assert(false);
            }
            if w > a {
                assert(is_word_byte(b@[a as int]));
                assert(false);
            }
            assert(false);
        }
    }
    ok
}

} // verus!
