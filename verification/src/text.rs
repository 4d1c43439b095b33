//! Byte-level text utilities.
//!
//! The routing and device-selection logic reads tool output and device
//! names as UTF-8 bytes; these helpers give exact byte-sequence semantics
//! for the searching, trimming and number parsing they need.  Case folding
//! is ASCII-only, which is what the names being matched use.

use vstd::prelude::*;

verus! {

/// ASCII lowercase of one byte.
pub open spec fn lower_byte(b: u8) -> u8 {
    if 65 <= b <= 90 {
        (b + 32) as u8
    } else {
        b
    }
}

pub open spec fn lower_bytes(s: Seq<u8>) -> Seq<u8> {
    s.map_values(|b: u8| lower_byte(b))
}

/// ASCII-lowercase a byte string.
pub fn to_lower(s: &[u8]) -> (r: Vec<u8>)
    ensures
        r@ =~= lower_bytes(s@),
{
    let mut r: Vec<u8> = Vec::new();
    let mut i: usize = 0;
    while i < s.len()
        invariant
            0 <= i <= s@.len(),
            r@.len() == i,
            forall|j: int| 0 <= j < i ==> r@[j] == lower_byte(#[trigger] s@[j]),
        decreases s@.len() - i,
    {
        let b = s[i];
        if 65 <= b && b <= 90 {
            r.push(b + 32);
        } else {
            r.push(b);
        }
        i = i + 1;
    }
    proof {
        assert forall|j: int| 0 <= j < s@.len() implies r@[j] == lower_bytes(s@)[j] by {
            assert(r@[j] == lower_byte(s@[j]));
        }
    }
    r
}

/// Whether `n` occurs in `h` starting at offset `i`.
pub open spec fn matches_at(h: Seq<u8>, n: Seq<u8>, i: int) -> bool {
    &&& 0 <= i
    &&& i + n.len() <= h.len()
    &&& forall|k: int| 0 <= k < n.len() ==> h[i + k] == #[trigger] n[k]
}

/// Whether `n` occurs anywhere in `h`.
pub open spec fn contains_seq(h: Seq<u8>, n: Seq<u8>) -> bool {
    exists|i: int| matches_at(h, n, i)
}

/// Substring search over bytes.
pub fn contains_bytes(h: &[u8], n: &[u8]) -> (r: bool)
    ensures
        r == contains_seq(h@, n@),
{
    let hn = h.len();
    let nn = n.len();
    if nn > hn {
        proof {
            assert(forall|i: int| !matches_at(h@, n@, i));
        }
        return false;
    }
    let mut i: usize = 0;
    while i <= hn - nn
        invariant
            nn == n@.len(),
            hn == h@.len(),
            nn <= hn,
            0 <= i <= hn - nn + 1,
            forall|p: int| 0 <= p < i ==> !matches_at(h@, n@, p),
        decreases hn - nn + 1 - i,
    {
        let mut k: usize = 0;
        let mut hit: bool = true;
        while k < nn
            invariant
                nn == n@.len(),
                hn == h@.len(),
                nn <= hn,
                0 <= i <= hn - nn,
                0 <= k <= nn,
                hit ==> forall|q: int| 0 <= q < k ==> h@[i + q] == #[trigger] n@[q],
                !hit ==> !matches_at(h@, n@, i as int),
            ensures
                hit ==> matches_at(h@, n@, i as int),
                !hit ==> !matches_at(h@, n@, i as int),
            decreases nn - k,
        {
            if h[i + k] != n[k] {
                hit = false;
                proof {
                    assert(!matches_at(h@, n@, i as int));
                }
                break ;
            }
            k = k + 1;
        }
        if hit {
            return true;
        }
        i = i + 1;
    }
    proof {
        assert forall|p: int| !matches_at(h@, n@, p) by {
            if p >= i {
                assert(p + n@.len() > h@.len() || p < 0 || !matches_at(h@, n@, p));
            }
        }
    }
    false
}

/// Whether `p` is a prefix of `s`.
pub open spec fn starts_with_spec(s: Seq<u8>, p: Seq<u8>) -> bool {
    p.len() <= s.len() && forall|k: int| 0 <= k < p.len() ==> s[k] == #[trigger] p[k]
}

pub fn starts_with_bytes(s: &[u8], p: &[u8]) -> (r: bool)
    ensures
        r == starts_with_spec(s@, p@),
{
    if p.len() > s.len() {
        return false;
    }
    let mut k: usize = 0;
    while k < p.len()
        invariant
            p@.len() <= s@.len(),
            0 <= k <= p@.len(),
            forall|q: int| 0 <= q < k ==> s@[q] == #[trigger] p@[q],
        decreases p@.len() - k,
    {
        if s[k] != p[k] {
            return false;
        }
        k = k + 1;
    }
    true
}

/// Byte-string equality.
pub fn eq_bytes(a: &[u8], b: &[u8]) -> (r: bool)
    ensures
        r == (a@ == b@),
{
    if a.len() != b.len() {
        return false;
    }
    let mut k: usize = 0;
    while k < a.len()
        invariant
            a@.len() == b@.len(),
            0 <= k <= a@.len(),
            forall|q: int| 0 <= q < k ==> a@[q] == #[trigger] b@[q],
        decreases a@.len() - k,
    {
        if a[k] != b[k] {
            return false;
        }
        k = k + 1;
    }
    proof {
        assert(a@ =~= b@);
    }
    true
}

/// ASCII whitespace, as far as line trimming needs it.
pub open spec fn is_space(b: u8) -> bool {
    b == 32 || b == 9 || b == 13 || b == 10
}

/// The sequence with leading whitespace removed.
pub open spec fn trim_start_spec(s: Seq<u8>) -> Seq<u8>
    decreases s.len(),
{
    if s.len() > 0 && is_space(s.first()) {
        trim_start_spec(s.drop_first())
    } else {
        s
    }
}

/// The sequence with trailing whitespace removed.
pub open spec fn trim_end_spec(s: Seq<u8>) -> Seq<u8>
    decreases s.len(),
{
    if s.len() > 0 && is_space(s.last()) {
        trim_end_spec(s.drop_last())
    } else {
        s
    }
}

/// The sequence with whitespace removed from both ends.
pub open spec fn trimmed(s: Seq<u8>) -> Seq<u8> {
    trim_end_spec(trim_start_spec(s))
}

fn is_space_byte(b: u8) -> (r: bool)
    ensures
        r == is_space(b),
{
    b == 32 || b == 9 || b == 13 || b == 10
}

/// Copy of the input with ASCII whitespace trimmed from both ends.
pub fn trim_bytes(s: &[u8]) -> (r: Vec<u8>)
    ensures
        r@ =~= trimmed(s@),
{
    proof {
        assert(s@.skip(0) =~= s@);
    }
    let mut a: usize = 0;
    while a < s.len() && is_space_byte(s[a])
        invariant
            0 <= a <= s@.len(),
            trim_start_spec(s@) == trim_start_spec(s@.skip(a as int)),
        decreases s@.len() - a,
    {
        proof {
            assert(s@.skip(a as int).first() == s@[a as int]);
            assert(s@.skip(a as int).drop_first() =~= s@.skip(a + 1));
        }
        a = a + 1;
    }
    proof {
        if a < s@.len() {
            assert(s@.skip(a as int).first() == s@[a as int]);
        }
        assert(trim_start_spec(s@) =~= s@.skip(a as int));
    }
    proof {
        assert(s@.skip(a as int) =~= s@.subrange(a as int, s@.len() as int));
    }
    let mut b: usize = s.len();
    while b > a && is_space_byte(s[b - 1])
        invariant
            a <= b <= s@.len(),
            trim_start_spec(s@) =~= s@.skip(a as int),
            trim_end_spec(s@.skip(a as int)) == trim_end_spec(s@.subrange(a as int, b as int)),
        decreases b,
    {
        proof {
            assert(s@.subrange(a as int, b as int).last() == s@[b - 1]);
            assert(s@.subrange(a as int, b as int).drop_last() =~= s@.subrange(a as int, b - 1));
        }
        b = b - 1;
    }
    proof {
        if b > a {
            assert(s@.subrange(a as int, b as int).last() == s@[b - 1]);
        }
        assert(trim_end_spec(s@.subrange(a as int, b as int)) =~= s@.subrange(a as int, b as int));
    }
    let mut r: Vec<u8> = Vec::new();
    proof {
        assert(Seq::<u8>::empty() =~= s@.subrange(a as int, a as int));
    }
    let mut i: usize = a;
    while i < b
        invariant
            a <= i <= b <= s@.len(),
            r@ =~= s@.subrange(a as int, i as int),
        decreases b - i,
    {
        r.push(s[i]);
        proof {
            assert(r@ =~= s@.subrange(a as int, i + 1));
        }
        i = i + 1;
    }
    proof {
        assert(r@ =~= s@.subrange(a as int, b as int));
    }
    r
}

pub open spec fn is_digit(b: u8) -> bool {
    48 <= b <= 57
}

pub open spec fn all_digits(s: Seq<u8>) -> bool {
    forall|j: int| 0 <= j < s.len() ==> is_digit(#[trigger] s[j])
}

/// The number a digit string denotes, most significant digit first.
pub open spec fn dec_value(s: Seq<u8>) -> int
    decreases s.len(),
{
    if s.len() == 0 {
        0int
    } else {
        dec_value(s.drop_last()) * 10 + (s.last() - 48)
    }
}

/// A longer digit string never denotes a smaller number.
proof fn lemma_dec_value_prefix_le(s: Seq<u8>, i: int)
    requires
        0 <= i <= s.len(),
        all_digits(s),
    ensures
        dec_value(s.take(i)) <= dec_value(s),
        dec_value(s) >= 0,
    decreases s.len() - i,
{
    if i == s.len() {
        assert(s.take(i) =~= s);
        lemma_dec_value_nonneg(s);
    } else {
        assert(s.take(i + 1).drop_last() =~= s.take(i));
        assert(s.take(i + 1).last() == s[i]);
        lemma_dec_value_nonneg(s.take(i));
        assert(dec_value(s.take(i + 1)) == dec_value(s.take(i)) * 10 + (s[i] - 48));
        assert(dec_value(s.take(i)) * 10 >= dec_value(s.take(i))) by (nonlinear_arith)
            requires
                dec_value(s.take(i)) >= 0,
        ;
        lemma_dec_value_prefix_le(s, i + 1);
    }
}

proof fn lemma_dec_value_nonneg(s: Seq<u8>)
    requires
        all_digits(s),
    ensures
        dec_value(s) >= 0,
    decreases s.len(),
{
    if s.len() > 0 {
        assert(all_digits(s.drop_last()));
        lemma_dec_value_nonneg(s.drop_last());
        assert(dec_value(s.drop_last()) * 10 >= 0) by (nonlinear_arith)
            requires
                dec_value(s.drop_last()) >= 0,
        ;
    }
}

/// What decimal parsing yields: a value exactly for non-empty all-digit
/// strings that fit, nothing for anything else.
pub open spec fn parsed_u32(s: Seq<u8>) -> Option<u32> {
    if s.len() > 0 && all_digits(s) && dec_value(s) <= u32::MAX as int {
        Some(dec_value(s) as u32)
    } else {
        None
    }
}

/// Parse an unsigned decimal number: defined exactly for non-empty
/// all-digit strings whose value fits, and for nothing else.
pub fn parse_u32(s: &[u8]) -> (r: Option<u32>)
    ensures
        r == parsed_u32(s@),
        r is Some <==> (s@.len() > 0 && all_digits(s@) && dec_value(s@) <= u32::MAX as int),
        r is Some ==> r.unwrap() as int == dec_value(s@),
{
    if s.len() == 0 {
        return None;
    }
    let mut acc: u64 = 0;
    let mut i: usize = 0;
    while i < s.len()
        invariant
            0 < s@.len(),
            0 <= i <= s@.len(),
            all_digits(s@.take(i as int)),
            acc as int == dec_value(s@.take(i as int)),
            acc <= u32::MAX as u64,
        decreases s@.len() - i,
    {
        let b = s[i];
        if b < 48 || b > 57 {
            proof {
                assert(!is_digit(s@[i as int]));
            }
            return None;
        }
        acc = acc * 10 + ((b - 48) as u64);
        proof {
            assert(s@.take(i + 1).drop_last() =~= s@.take(i as int));
            assert(s@.take(i + 1).last() == s@[i as int]);
        }
        i = i + 1;
        if acc > u32::MAX as u64 {
            proof {
                if all_digits(s@) {
                    lemma_dec_value_prefix_le(s@, i as int);
                }
            }
            return None;
        }
    }
    proof {
        assert(s@.take(s@.len() as int) =~= s@);
    }
    Some(acc as u32)
}

} // verus!
