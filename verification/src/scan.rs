//! Byte-level text helpers for the response reader: ASCII whitespace
//! trimming, prefix tests, and decimal / hexadecimal integer parsing.

use vstd::prelude::*;

verus! {

/// An ASCII whitespace byte: tab, line feed, vertical tab, form feed,
/// carriage return, or space.
pub open spec fn is_ws(b: u8) -> bool {
    b == 32 || (9 <= b && b <= 13)
}

/// The sequence with its leading ASCII whitespace removed.
pub open spec fn spec_trim_front(s: Seq<u8>) -> Seq<u8>
    decreases s.len(),
{
    if s.len() > 0 && is_ws(s[0]) {
        spec_trim_front(s.drop_first())
    } else {
        s
    }
}

/// The sequence with its trailing ASCII whitespace removed.
pub open spec fn spec_trim_back(s: Seq<u8>) -> Seq<u8>
    decreases s.len(),
{
    if s.len() > 0 && is_ws(s[s.len() - 1]) {
        spec_trim_back(s.drop_last())
    } else {
        s
    }
}

/// The sequence with leading and trailing ASCII whitespace removed.
pub open spec fn spec_trim(s: Seq<u8>) -> Seq<u8> {
    spec_trim_back(spec_trim_front(s))
}

/// Removes leading and trailing ASCII whitespace from a byte slice.
pub fn trim(s: &[u8]) -> (r: &[u8])
    ensures
        r@ == spec_trim(s@),
{
    let mut a: &[u8] = s;
    while a.len() > 0 && is_ws_exec(a[0])
        invariant
            spec_trim_front(s@) == spec_trim_front(a@),
        decreases a@.len(),
    {
        let next = vstd::slice::slice_subrange(a, 1, a.len());
        proof {
            assert(next@ =~= a@.drop_first());
        }
        a = next;
    }
    assert(spec_trim_front(a@) == a@);
    let mut b: &[u8] = a;
    while b.len() > 0 && is_ws_exec(b[b.len() - 1])
        invariant
            spec_trim_back(a@) == spec_trim_back(b@),
        decreases b@.len(),
    {
        let next = vstd::slice::slice_subrange(b, 0, b.len() - 1);
        proof {
            assert(next@ =~= b@.drop_last());
        }
        b = next;
    }
    assert(spec_trim_back(b@) == b@);
    b
}

/// Whether a byte is ASCII whitespace.
pub fn is_ws_exec(b: u8) -> (r: bool)
    ensures
        r == is_ws(b),
{
    b == 32 || (9 <= b && b <= 13)
}

/// Whether `s` begins with the bytes of `pre`.
pub fn starts_with(s: &[u8], pre: &[u8]) -> (r: bool)
    ensures
        r == (s@.len() >= pre@.len() && s@.take(pre@.len() as int) == pre@),
{
    if s.len() < pre.len() {
        return false;
    }
    let n = pre.len();
    let mut i: usize = 0;
    while i < n
        invariant
            n == pre@.len() <= s@.len(),
            0 <= i <= n,
            forall|k: int| 0 <= k < i ==> s@[k] == pre@[k],
        decreases n - i,
    {
        if *vstd::slice::slice_index_get(s, i) != *vstd::slice::slice_index_get(pre, i) {
            assert(s@.take(n as int)[i as int] != pre@[i as int]);
            return false;
        }
        i += 1;
    }
    assert(s@.take(n as int) =~= pre@);
    true
}

/// An ASCII decimal digit.
pub open spec fn is_dec_digit(b: u8) -> bool {
    48 <= b && b <= 57
}

/// A non-empty run of ASCII decimal digits.
pub open spec fn dec_digits(s: Seq<u8>) -> bool {
    s.len() > 0 && forall|i: int| 0 <= i < s.len() ==> is_dec_digit(s[i])
}

/// The value of a run of ASCII decimal digits, most significant first.
pub open spec fn dec_val(s: Seq<u8>) -> int
    decreases s.len(),
{
    if s.len() == 0 {
        0
    } else {
        dec_val(s.drop_last()) * 10 + (s[s.len() - 1] - 48)
    }
}

/// An ASCII hexadecimal digit (either case).
pub open spec fn is_hex_digit(b: u8) -> bool {
    (48 <= b && b <= 57) || (97 <= b && b <= 102) || (65 <= b && b <= 70)
}

/// A non-empty run of ASCII hexadecimal digits.
pub open spec fn hex_digits(s: Seq<u8>) -> bool {
    s.len() > 0 && forall|i: int| 0 <= i < s.len() ==> is_hex_digit(s[i])
}

/// The value of one ASCII hexadecimal digit.
pub open spec fn hex_digit_val(b: u8) -> int {
    if 48 <= b && b <= 57 {
        b - 48
    } else if 97 <= b && b <= 102 {
        b - 87
    } else {
        b - 55
    }
}

/// The value of a run of ASCII hexadecimal digits, most significant first.
pub open spec fn hex_val(s: Seq<u8>) -> int
    decreases s.len(),
{
    if s.len() == 0 {
        0
    } else {
        hex_val(s.drop_last()) * 16 + hex_digit_val(s[s.len() - 1])
    }
}

/// A decimal value never shrinks as digits are appended on the right.
proof fn lemma_dec_val_prefix_le(s: Seq<u8>, j: int)
    requires
        0 <= j <= s.len(),
        forall|k: int| 0 <= k < s.len() ==> is_dec_digit(s[k]),
    ensures
        dec_val(s.take(j)) <= dec_val(s),
    decreases s.len() - j,
{
    if j < s.len() {
        assert(s.take(j + 1).drop_last() =~= s.take(j));
        assert(dec_val(s.take(j + 1)) == dec_val(s.take(j)) * 10 + (s[j] - 48));
        assert(dec_val(s.take(j)) * 10 >= dec_val(s.take(j))) by {
            assert(dec_val(s.take(j)) >= 0) by {
                lemma_dec_val_nonneg(s.take(j));
            }
        }
        lemma_dec_val_prefix_le(s, j + 1);
    } else {
        assert(s.take(j) =~= s);
    }
}

/// A run of decimal digits has a non-negative value.
proof fn lemma_dec_val_nonneg(s: Seq<u8>)
    requires
        forall|k: int| 0 <= k < s.len() ==> is_dec_digit(s[k]),
    ensures
        dec_val(s) >= 0,
    decreases s.len(),
{
    if s.len() > 0 {
        lemma_dec_val_nonneg(s.drop_last());
    }
}

/// A hexadecimal value never shrinks as digits are appended on the right.
proof fn lemma_hex_val_prefix_le(s: Seq<u8>, j: int)
    requires
        0 <= j <= s.len(),
        forall|k: int| 0 <= k < s.len() ==> is_hex_digit(s[k]),
    ensures
        hex_val(s.take(j)) <= hex_val(s),
    decreases s.len() - j,
{
    if j < s.len() {
        assert(s.take(j + 1).drop_last() =~= s.take(j));
        assert(hex_val(s.take(j + 1)) == hex_val(s.take(j)) * 16 + hex_digit_val(s[j]));
        assert(hex_val(s.take(j)) * 16 >= hex_val(s.take(j))) by {
            assert(hex_val(s.take(j)) >= 0) by {
                lemma_hex_val_nonneg(s.take(j));
            }
        }
        lemma_hex_val_prefix_le(s, j + 1);
    } else {
        assert(s.take(j) =~= s);
    }
}

/// A run of hexadecimal digits has a non-negative value.
proof fn lemma_hex_val_nonneg(s: Seq<u8>)
    requires
        forall|k: int| 0 <= k < s.len() ==> is_hex_digit(s[k]),
    ensures
        hex_val(s) >= 0,
    decreases s.len(),
{
    if s.len() > 0 {
        lemma_hex_val_nonneg(s.drop_last());
    }
}

/// Parses an unsigned decimal integer. Returns `None` exactly when the input
/// is empty, holds a non-digit byte, or its value does not fit in `usize`.
pub fn parse_dec(s: &[u8]) -> (r: Option<usize>)
    ensures
        r is Some <==> dec_digits(s@) && dec_val(s@) <= usize::MAX,
        r matches Some(v) ==> v == dec_val(s@),
{
    if s.len() == 0 {
        return None;
    }
    let mut v: usize = 0;
    let mut i: usize = 0;
    while i < s.len()
        invariant
            0 <= i <= s@.len(),
            forall|k: int| 0 <= k < i ==> is_dec_digit(s@[k]),
            v == dec_val(s@.take(i as int)),
        decreases s@.len() - i,
    {
        let b = s[i];
        if !(48 <= b && b <= 57) {
            return None;
        }
        let d = (b - 48) as usize;
        proof {
            assert(s@.take(i + 1).drop_last() =~= s@.take(i as int));
        }
        let v10 = match v.checked_mul(10) {
            Some(x) => x,
            None => {
                proof {
                    if dec_digits(s@) {
                        lemma_dec_val_prefix_le(s@, i + 1);
                    }
                }
                return None;
            },
        };
        v = match v10.checked_add(d) {
            Some(x) => x,
            None => {
                proof {
                    if dec_digits(s@) {
                        lemma_dec_val_prefix_le(s@, i + 1);
                    }
                }
                return None;
            },
        };
        i += 1;
    }
    proof {
        assert(s@.take(i as int) =~= s@);
    }
    Some(v)
}

/// Parses an unsigned hexadecimal integer. Returns `None` exactly when the
/// input is empty, holds a non-hex byte, or its value does not fit in `usize`.
pub fn parse_hex(s: &[u8]) -> (r: Option<usize>)
    ensures
        r is Some <==> hex_digits(s@) && hex_val(s@) <= usize::MAX,
        r matches Some(v) ==> v == hex_val(s@),
{
    if s.len() == 0 {
        return None;
    }
    let mut v: usize = 0;
    let mut i: usize = 0;
    while i < s.len()
        invariant
            0 <= i <= s@.len(),
            forall|k: int| 0 <= k < i ==> is_hex_digit(s@[k]),
            v == hex_val(s@.take(i as int)),
        decreases s@.len() - i,
    {
        let b = s[i];
        let d: usize = if 48 <= b && b <= 57 {
            (b - 48) as usize
        } else if 97 <= b && b <= 102 {
            (b - 87) as usize
        } else if 65 <= b && b <= 70 {
            (b - 55) as usize
        } else {
            return None;
        };
        proof {
            assert(s@.take(i + 1).drop_last() =~= s@.take(i as int));
        }
        let v16 = match v.checked_mul(16) {
            Some(x) => x,
            None => {
                proof {
                    if hex_digits(s@) {
                        lemma_hex_val_prefix_le(s@, i + 1);
                    }
                }
                return None;
            },
        };
        v = match v16.checked_add(d) {
            Some(x) => x,
            None => {
                proof {
                    if hex_digits(s@) {
                        lemma_hex_val_prefix_le(s@, i + 1);
                    }
                }
                return None;
            },
        };
        i += 1;
    }
    proof {
        assert(s@.take(i as int) =~= s@);
    }
    Some(v)
}

} // verus!
