//! Byte-level text utilities shared by the whole crate: page text is a byte
//! buffer and every extracted slice of it is a byte string.

use vstd::prelude::*;

verus! {

/// Whether a byte counts as whitespace inside a page title: ASCII whitespace
/// or underscore (underscores separate words in stored titles).
pub open spec fn spec_is_title_whitespace(b: u8) -> bool {
    b == 0x09 || b == 0x0a || b == 0x0c || b == 0x0d || b == 0x20 || b == 0x5f
}

/// Executable counterpart of [`spec_is_title_whitespace`].
pub fn is_title_whitespace(b: u8) -> (r: bool)
    ensures
        r == spec_is_title_whitespace(b),
{
    b == 0x09 || b == 0x0a || b == 0x0c || b == 0x0d || b == 0x20 || b == 0x5f
}

/// Whether every byte is an ASCII decimal digit; the empty string does not
/// count as a number.
pub open spec fn spec_all_digits(s: Seq<u8>) -> bool {
    s.len() > 0 && forall|i: int| 0 <= i < s.len() ==> 0x30 <= #[trigger] s[i] <= 0x39
}

/// The number a string of decimal digits denotes.
pub open spec fn spec_digits_value(s: Seq<u8>) -> int
    decreases s.len(),
{
    if s.len() == 0 {
        0
    } else {
        spec_digits_value(s.drop_last()) * 10 + (s.last() - 0x30)
    }
}

/// Parses a string of decimal digits as a 32-bit number: `None` when the
/// string is empty, holds a non-digit, or denotes a number too large.
pub fn parse_u32_digits(s: &[u8]) -> (r: Option<u32>)
    ensures
        (match r {
            Some(v) => spec_all_digits(s@) && v == spec_digits_value(s@),
            None => !spec_all_digits(s@) || spec_digits_value(s@) > u32::MAX,
        }),
{
    if s.len() == 0 {
        return None;
    }
    let mut v: u32 = 0;
    let mut i: usize = 0;
    proof {
        assert(s@.subrange(0, 0) =~= Seq::<u8>::empty());
    }
    while i < s.len()
        invariant
            0 <= i <= s@.len(),
            forall|j: int| 0 <= j < i ==> 0x30 <= #[trigger] s@[j] <= 0x39,
            v == spec_digits_value(s@.subrange(0, i as int)),
        decreases s@.len() - i,
    {
        let b = s[i];
        if b < 0x30 || b > 0x39 {
            return None;
        }
        let d = (b - 0x30) as u32;
        if v > (u32::MAX - d) / 10 {
            proof {
                assert(s@.subrange(0, i + 1).drop_last() =~= s@.subrange(0, i as int));
                assert(spec_digits_value(s@.subrange(0, i + 1)) == v * 10 + d);
                assert(v * 10 + d > u32::MAX) by (nonlinear_arith)
                    requires
                        v > (u32::MAX - d) / 10,
                        0 <= d <= 9,
                ;
                if spec_all_digits(s@) {
                    lemma_digits_value_grows(s@, i as int);
                }
            }
            return None;
        }
        v = v * 10 + d;
        proof {
            assert(s@.subrange(0, i + 1).drop_last() =~= s@.subrange(0, i as int));
        }
        i = i + 1;
    }
    proof {
        assert(s@.subrange(0, s@.len() as int) =~= s@);
    }
    Some(v)
}

/// A longer digit prefix denotes at least as large a number: the value of
/// the whole string is at least the value built from any prefix extended by
/// one digit.
proof fn lemma_digits_value_grows(s: Seq<u8>, i: int)
    requires
        0 <= i < s.len(),
        forall|j: int| 0 <= j < s.len() ==> 0x30 <= #[trigger] s[j] <= 0x39,
    ensures
        spec_digits_value(s) >= spec_digits_value(s.subrange(0, i + 1)),
    decreases s.len() - i,
{
    if i + 1 == s.len() {
        assert(s.subrange(0, i + 1) =~= s);
    } else {
        lemma_digits_value_grows(s, i + 1);
        assert(s.subrange(0, i + 2).drop_last() =~= s.subrange(0, i + 1));
        lemma_digits_value_nonneg(s.subrange(0, i + 1));
        assert(spec_digits_value(s.subrange(0, i + 2)) >= spec_digits_value(
            s.subrange(0, i + 1),
        )) by (nonlinear_arith)
            requires
                spec_digits_value(s.subrange(0, i + 2)) == spec_digits_value(
                    s.subrange(0, i + 1),
                ) * 10 + (s.subrange(0, i + 2).last() - 0x30),
                0x30 <= s.subrange(0, i + 2).last() <= 0x39,
                spec_digits_value(s.subrange(0, i + 1)) >= 0,
        ;
    }
}

/// The number a digit string denotes is never negative.
proof fn lemma_digits_value_nonneg(s: Seq<u8>)
    requires
        forall|j: int| 0 <= j < s.len() ==> 0x30 <= #[trigger] s[j] <= 0x39,
    ensures
        spec_digits_value(s) >= 0,
    decreases s.len(),
{
    if s.len() > 0 {
        lemma_digits_value_nonneg(s.drop_last());
        assert(spec_digits_value(s) >= 0) by (nonlinear_arith)
            requires
                spec_digits_value(s) == spec_digits_value(s.drop_last()) * 10 + (s.last() - 0x30),
                spec_digits_value(s.drop_last()) >= 0,
                0x30 <= s.last() <= 0x39,
        ;
    }
}

/// A copy of a byte string.
pub fn copy_bytes(v: &Vec<u8>) -> (r: Vec<u8>)
    ensures
        r@ == v@,
{
    copy_bytes_slice(v.as_slice())
}

/// A copy of a byte slice.
pub fn copy_bytes_slice(v: &[u8]) -> (r: Vec<u8>)
    ensures
        r@ == v@,
{
    let mut r: Vec<u8> = Vec::new();
    let mut i: usize = 0;
    while i < v.len()
        invariant
            0 <= i <= v@.len(),
            r@ =~= v@.subrange(0, i as int),
        decreases v@.len() - i,
    {
        r.push(v[i]);
        i = i + 1;
    }
    proof {
        assert(v@.subrange(0, v@.len() as int) =~= v@);
    }
    r
}

/// Appends every byte of `src` to `dst`.
pub fn push_all(dst: &mut Vec<u8>, src: &[u8])
    ensures
        final(dst)@ == old(dst)@ + src@,
{
    let mut i: usize = 0;
    while i < src.len()
        invariant
            0 <= i <= src@.len(),
            dst@ =~= old(dst)@ + src@.subrange(0, i as int),
        decreases src@.len() - i,
    {
        dst.push(src[i]);
        i = i + 1;
    }
    proof {
        assert(src@.subrange(0, src@.len() as int) =~= src@);
    }
}

/// Byte-string equality.
pub fn bytes_eq(a: &[u8], b: &[u8]) -> (r: bool)
    ensures
        r == (a@ == b@),
{
    if a.len() != b.len() {
        assert(a@.len() != b@.len());
        return false;
    }
    let mut i: usize = 0;
    while i < a.len()
        invariant
            0 <= i <= a@.len(),
            a@.len() == b@.len(),
            forall|j: int| 0 <= j < i ==> a@[j] == b@[j],
        decreases a@.len() - i,
    {
        if a[i] != b[i] {
            return false;
        }
        i = i + 1;
    }
    assert(a@ =~= b@);
    true
}

} // verus!
