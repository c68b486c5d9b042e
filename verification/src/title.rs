//! The title / template-name normalizer: canonicalizes a raw byte-string
//! identifier (page title or template name) into a comparable key, and the
//! looser space-normalizer used for template names matched verbatim.

use vstd::prelude::*;

use crate::text::{is_title_whitespace, spec_is_title_whitespace};

verus! {

/// The maximum length, in bytes, of a normalized title. This bound matches
/// the maximum valid page-title length in the source system.
pub const TITLE_MAX: usize = 255;

/// Why a title failed to normalize.
#[derive(PartialEq, Eq, Structural, Clone, Copy, Debug)]
#[non_exhaustive]
pub enum TitleNormalizationError {
    /// The normalized title would exceed [`TITLE_MAX`] bytes.
    TooLong,
    /// The title contains a control character (a code point at or below
    /// U+1F outside a collapsed whitespace run).
    IllegalChar,
}

/// A control byte: illegal in a title outside a whitespace run.
pub open spec fn spec_is_illegal(b: u8) -> bool {
    b < 0x20
}

/// The input with leading title-whitespace removed.
pub open spec fn trim_front(s: Seq<u8>) -> Seq<u8>
    decreases s.len(),
{
    if s.len() > 0 && spec_is_title_whitespace(s[0]) {
        trim_front(s.drop_first())
    } else {
        s
    }
}

/// The input with trailing title-whitespace removed.
pub open spec fn trim_back(s: Seq<u8>) -> Seq<u8>
    decreases s.len(),
{
    if s.len() > 0 && spec_is_title_whitespace(s.last()) {
        trim_back(s.drop_last())
    } else {
        s
    }
}

/// The input with title-whitespace removed from both ends.
pub open spec fn spec_trim(s: Seq<u8>) -> Seq<u8> {
    trim_back(trim_front(s))
}

/// One pass over the trimmed input. `prev_ws` records whether the previous
/// byte belonged to a whitespace run: bytes continuing a run are dropped
/// without any check; at the head of a run a single underscore is written.
/// Before each written byte the running output is checked against
/// [`TITLE_MAX`] (fail fast), and a control byte at the head of a run or in
/// plain text is illegal.
pub open spec fn norm_rec(s: Seq<u8>, prev_ws: bool, acc: Seq<u8>) -> Result<
    Seq<u8>,
    TitleNormalizationError,
>
    decreases s.len(),
{
    if s.len() == 0 {
        Ok(acc)
    } else if spec_is_title_whitespace(s[0]) && prev_ws {
        norm_rec(s.drop_first(), true, acc)
    } else if acc.len() >= TITLE_MAX {
        Err(TitleNormalizationError::TooLong)
    } else if spec_is_illegal(s[0]) {
        Err(TitleNormalizationError::IllegalChar)
    } else if spec_is_title_whitespace(s[0]) {
        norm_rec(s.drop_first(), true, acc.push(0x5f))
    } else {
        norm_rec(s.drop_first(), false, acc.push(s[0]))
    }
}

/// What [`normalize_title`] returns: trim whitespace-or-underscore at both
/// ends, reject control characters, collapse every whitespace run to one
/// underscore, and fail the moment the output would exceed [`TITLE_MAX`].
pub open spec fn spec_normalize_title(s: Seq<u8>) -> Result<Seq<u8>, TitleNormalizationError> {
    norm_rec(spec_trim(s), false, Seq::empty())
}

/// Normalizes a raw title or template name into a comparable key.
pub fn normalize_title(name: &[u8]) -> (r: Result<Vec<u8>, TitleNormalizationError>)
    ensures
        (match r {
            Ok(t) => spec_normalize_title(name@) == Ok::<_, TitleNormalizationError>(t@),
            Err(e) => spec_normalize_title(name@) == Err::<Seq<u8>, _>(e),
        }),
{
    let len = name.len();
    proof {
        assert(name@.subrange(0, len as int) =~= name@);
    }
    let mut lo: usize = 0;
    while lo < len && is_title_whitespace(name[lo])
        invariant
            0 <= lo <= len == name@.len(),
            trim_front(name@) == trim_front(name@.subrange(lo as int, len as int)),
        decreases len - lo,
    {
        proof {
            assert(name@.subrange(lo as int, len as int).drop_first() =~= name@.subrange(
                lo + 1,
                len as int,
            ));
        }
        lo = lo + 1;
    }
    proof {
        assert(trim_front(name@) == name@.subrange(lo as int, len as int));
    }
    let mut hi: usize = len;
    while hi > lo && is_title_whitespace(name[hi - 1])
        invariant
            0 <= lo <= hi <= len == name@.len(),
            trim_front(name@) == name@.subrange(lo as int, len as int),
            trim_back(name@.subrange(lo as int, len as int)) == trim_back(
                name@.subrange(lo as int, hi as int),
            ),
        decreases hi,
    {
        proof {
            assert(name@.subrange(lo as int, hi as int).drop_last() =~= name@.subrange(
                lo as int,
                hi - 1,
            ));
        }
        hi = hi - 1;
    }
    proof {
        assert(spec_trim(name@) == name@.subrange(lo as int, hi as int));
    }
    let ghost t = name@.subrange(lo as int, hi as int);
    let mut out: Vec<u8> = Vec::new();
    let mut prev_ws = false;
    let mut i: usize = lo;
    proof {
        assert(t.subrange(0, t.len() as int) =~= t);
        assert(out@ =~= Seq::<u8>::empty());
    }
    while i < hi
        invariant
            lo <= i <= hi <= name@.len(),
            t == name@.subrange(lo as int, hi as int),
            spec_normalize_title(name@) == norm_rec(
                name@.subrange(i as int, hi as int),
                prev_ws,
                out@,
            ),
        decreases hi - i,
    {
        let ghost rest = name@.subrange(i as int, hi as int);
        proof {
            assert(rest[0] == name@[i as int]);
            assert(rest.drop_first() =~= name@.subrange(i + 1, hi as int));
        }
        let b = name[i];
        if is_title_whitespace(b) && prev_ws {
            // continuing a whitespace run: drop the byte
        } else if out.len() >= TITLE_MAX {
            return Err(TitleNormalizationError::TooLong);
        } else if b < 0x20 {
            return Err(TitleNormalizationError::IllegalChar);
        } else if is_title_whitespace(b) {
            out.push(0x5f);
            prev_ws = true;
        } else {
            out.push(b);
            prev_ws = false;
        }
        i = i + 1;
    }
    proof {
        assert(name@.subrange(hi as int, hi as int) =~= Seq::<u8>::empty());
    }
    Ok(out)
}

/// What [`normalize_template_name`] returns: trim whitespace-or-underscore
/// at both ends and turn every remaining underscore into a space; `None`
/// when nothing but whitespace remains.
pub open spec fn spec_normalize_template_name(s: Seq<u8>) -> Option<Seq<u8>> {
    if spec_trim(s).len() == 0 {
        None
    } else {
        Some(spec_trim(s).map_values(|b: u8| if b == 0x5f { 0x20u8 } else { b }))
    }
}

/// Normalizes a template name for verbatim matching: trims whitespace at
/// both ends and replaces underscores by spaces, without any length or
/// legality check.
pub fn normalize_template_name(name: &[u8]) -> (r: Option<Vec<u8>>)
    ensures
        (match r {
            Some(t) => spec_normalize_template_name(name@) == Some(t@),
            None => spec_normalize_template_name(name@) is None,
        }),
{
    let len = name.len();
    proof {
        assert(name@.subrange(0, len as int) =~= name@);
    }
    let mut lo: usize = 0;
    while lo < len && is_title_whitespace(name[lo])
        invariant
            0 <= lo <= len == name@.len(),
            trim_front(name@) == trim_front(name@.subrange(lo as int, len as int)),
        decreases len - lo,
    {
        proof {
            assert(name@.subrange(lo as int, len as int).drop_first() =~= name@.subrange(
                lo + 1,
                len as int,
            ));
        }
        lo = lo + 1;
    }
    proof {
        assert(trim_front(name@) == name@.subrange(lo as int, len as int));
    }
    let mut hi: usize = len;
    while hi > lo && is_title_whitespace(name[hi - 1])
        invariant
            0 <= lo <= hi <= len == name@.len(),
            trim_front(name@) == name@.subrange(lo as int, len as int),
            trim_back(name@.subrange(lo as int, len as int)) == trim_back(
                name@.subrange(lo as int, hi as int),
            ),
        decreases hi,
    {
        proof {
            assert(name@.subrange(lo as int, hi as int).drop_last() =~= name@.subrange(
                lo as int,
                hi - 1,
            ));
        }
        hi = hi - 1;
    }
    proof {
        assert(spec_trim(name@) == name@.subrange(lo as int, hi as int));
    }
    if lo == hi {
        return None;
    }
    let ghost t = name@.subrange(lo as int, hi as int);
    let mut out: Vec<u8> = Vec::new();
    let mut i: usize = lo;
    while i < hi
        invariant
            lo <= i <= hi <= name@.len(),
            t == name@.subrange(lo as int, hi as int),
            out@ =~= t.subrange(0, i - lo).map_values(
                |b: u8| if b == 0x5f { 0x20u8 } else { b },
            ),
        decreases hi - i,
    {
        let b = name[i];
        if b == 0x5f {
            out.push(0x20);
        } else {
            out.push(b);
        }
        proof {
            assert(t.subrange(0, i + 1 - lo).map_values(
                |b: u8| if b == 0x5f { 0x20u8 } else { b },
            ) =~= t.subrange(0, i - lo).map_values(|b: u8| if b == 0x5f { 0x20u8 } else { b }).push(
                if name@[i as int] == 0x5f {
                    0x20u8
                } else {
                    name@[i as int]
                },
            ));
        }
        i = i + 1;
    }
    proof {
        assert(t.subrange(0, hi - lo) =~= t);
    }
    Some(out)
}

/// A byte that is neither whitespace nor a control character.
pub open spec fn spec_is_plain(b: u8) -> bool {
    !spec_is_title_whitespace(b) && !spec_is_illegal(b)
}

/// Every byte a successful normalization can emit: no control byte, and no
/// whitespace byte other than the underscore standing for a collapsed run.
pub open spec fn norm_elems(t: Seq<u8>) -> bool {
    forall|i: int|
        0 <= i < t.len() ==> !spec_is_illegal(t[i]) && (spec_is_title_whitespace(t[i]) ==> t[i]
            == 0x5f)
}

/// No two adjacent whitespace bytes: every run was collapsed.
pub open spec fn no_adjacent_ws(t: Seq<u8>) -> bool {
    forall|i: int|
        0 <= i < t.len() - 1 ==> !(#[trigger] spec_is_title_whitespace(t[i])
            && spec_is_title_whitespace(t[i + 1]))
}

/// The shape of every successful normalization result.
pub open spec fn normalized_shape(t: Seq<u8>) -> bool {
    &&& t.len() <= TITLE_MAX
    &&& norm_elems(t)
    &&& no_adjacent_ws(t)
}

/// A successful pass leaves a result of normalized shape, beginning with
/// what was already accumulated and ending in a non-whitespace byte.
proof fn lemma_norm_rec_shape(s: Seq<u8>, prev_ws: bool, acc: Seq<u8>)
    requires
        norm_rec(s, prev_ws, acc) is Ok,
        acc.len() <= TITLE_MAX,
        norm_elems(acc),
        no_adjacent_ws(acc),
        acc.len() > 0 && spec_is_title_whitespace(acc.last()) ==> prev_ws,
        s.len() > 0 ==> !spec_is_title_whitespace(s.last()),
    ensures
        normalized_shape(norm_rec(s, prev_ws, acc)->Ok_0),
        acc.len() > 0 ==> norm_rec(s, prev_ws, acc)->Ok_0.len() > 0 && norm_rec(
            s,
            prev_ws,
            acc,
        )->Ok_0[0] == acc[0],
        s.len() > 0 ==> norm_rec(s, prev_ws, acc)->Ok_0.len() > 0 && !spec_is_title_whitespace(
            norm_rec(s, prev_ws, acc)->Ok_0.last(),
        ),
        s.len() == 0 ==> norm_rec(s, prev_ws, acc)->Ok_0 == acc,
        acc.len() == 0 && s.len() > 0 && !spec_is_title_whitespace(s[0]) ==> norm_rec(
            s,
            prev_ws,
            acc,
        )->Ok_0[0] == s[0],
    decreases s.len(),
{
    if s.len() == 0 {
    } else if spec_is_title_whitespace(s[0]) && prev_ws {
        assert(s.len() > 1) by {
            if s.len() == 1 {
                assert(s.last() == s[0]);
            }
        }
        assert(s.drop_first().last() == s.last());
        lemma_norm_rec_shape(s.drop_first(), true, acc);
    } else if acc.len() >= TITLE_MAX {
    } else if spec_is_illegal(s[0]) {
    } else if spec_is_title_whitespace(s[0]) {
        let acc2 = acc.push(0x5f);
        assert(norm_elems(acc2));
        assert(no_adjacent_ws(acc2)) by {
            if acc.len() > 0 {
                assert(!spec_is_title_whitespace(acc.last()));
                assert(acc2[acc.len() - 1] == acc.last());
            }
        }
        assert(s.len() > 1) by {
            if s.len() == 1 {
                assert(s.last() == s[0]);
            }
        }
        assert(s.drop_first().last() == s.last());
        lemma_norm_rec_shape(s.drop_first(), true, acc2);
    } else {
        let acc2 = acc.push(s[0]);
        assert(norm_elems(acc2));
        assert(no_adjacent_ws(acc2)) by {
            if acc.len() > 0 {
                assert(acc2[acc.len() - 1] == acc.last());
            }
        }
        if s.len() > 1 {
            assert(s.drop_first().last() == s.last());
        }
        lemma_norm_rec_shape(s.drop_first(), false, acc2);
    }
}

/// On input already of normalized shape the pass is the identity: it
/// returns the accumulator followed by the input unchanged.
proof fn lemma_norm_rec_identity(t: Seq<u8>, prev_ws: bool, acc: Seq<u8>)
    requires
        norm_elems(t),
        no_adjacent_ws(t),
        acc.len() + t.len() <= TITLE_MAX,
        prev_ws && t.len() > 0 ==> !spec_is_title_whitespace(t[0]),
    ensures
        norm_rec(t, prev_ws, acc) == Ok::<_, TitleNormalizationError>(acc + t),
    decreases t.len(),
{
    if t.len() == 0 {
        assert(acc + t =~= acc);
    } else {
        let b = t[0];
        assert(!spec_is_illegal(b));
        if spec_is_title_whitespace(b) {
            assert(b == 0x5f);
            assert(t.len() > 1 ==> !spec_is_title_whitespace(t.drop_first()[0]));
            lemma_norm_rec_identity(t.drop_first(), true, acc.push(0x5f));
            assert(acc.push(0x5f) + t.drop_first() =~= acc + t);
        } else {
            lemma_norm_rec_identity(t.drop_first(), false, acc.push(b));
            assert(acc.push(b) + t.drop_first() =~= acc + t);
        }
    }
}

/// On plain input too long to fit, the pass fails with `TooLong`.
proof fn lemma_norm_rec_too_long(s: Seq<u8>, prev_ws: bool, acc: Seq<u8>)
    requires
        forall|i: int| 0 <= i < s.len() ==> spec_is_plain(s[i]),
        acc.len() + s.len() > TITLE_MAX,
        s.len() > 0,
    ensures
        norm_rec(s, prev_ws, acc) == Err::<Seq<u8>, _>(TitleNormalizationError::TooLong),
    decreases s.len(),
{
    if acc.len() >= TITLE_MAX {
    } else {
        lemma_norm_rec_too_long(s.drop_first(), false, acc.push(s[0]));
    }
}

/// Trimming the front leaves no leading whitespace, and keeps the first
/// byte of anything nonempty that remains.
proof fn lemma_trim_front_shape(s: Seq<u8>)
    ensures
        trim_front(s).len() > 0 ==> !spec_is_title_whitespace(trim_front(s)[0]),
    decreases s.len(),
{
    if s.len() > 0 && spec_is_title_whitespace(s[0]) {
        lemma_trim_front_shape(s.drop_first());
    }
}

/// Trimming the back leaves no trailing whitespace and keeps the first byte.
proof fn lemma_trim_back_shape(s: Seq<u8>)
    ensures
        trim_back(s).len() > 0 ==> !spec_is_title_whitespace(trim_back(s).last()),
        trim_back(s).len() > 0 ==> trim_back(s)[0] == s[0],
    decreases s.len(),
{
    if s.len() > 0 && spec_is_title_whitespace(s.last()) {
        lemma_trim_back_shape(s.drop_last());
    }
}

/// A string without whitespace at either end trims to itself.
proof fn lemma_trim_identity(t: Seq<u8>)
    requires
        t.len() > 0 ==> !spec_is_title_whitespace(t[0]),
        t.len() > 0 ==> !spec_is_title_whitespace(t.last()),
    ensures
        spec_trim(t) == t,
{
    assert(trim_front(t) == t);
    assert(trim_back(t) == t);
}

/// Name normalization is idempotent: normalizing a successfully normalized
/// title again returns it unchanged.
pub proof fn lemma_normalize_idempotent(x: Seq<u8>)
    requires
        spec_normalize_title(x) is Ok,
    ensures
        spec_normalize_title(spec_normalize_title(x)->Ok_0) == spec_normalize_title(x),
{
    let tr = spec_trim(x);
    let t = spec_normalize_title(x)->Ok_0;
    lemma_trim_front_shape(x);
    lemma_trim_back_shape(trim_front(x));
    if tr.len() == 0 {
        assert(t == Seq::<u8>::empty());
        assert(spec_trim(t) == t) by {
            lemma_trim_identity(t);
        }
        lemma_norm_rec_identity(t, false, Seq::empty());
        assert(Seq::<u8>::empty() + t =~= t);
    } else {
        lemma_norm_rec_shape(tr, false, Seq::empty());
        assert(!spec_is_title_whitespace(t[0]));
        assert(!spec_is_title_whitespace(t.last()));
        lemma_trim_identity(t);
        lemma_norm_rec_identity(t, false, Seq::empty());
        assert(Seq::<u8>::empty() + t =~= t);
    }
}

/// A title of exactly the maximum length, made of plain characters,
/// normalizes successfully — to itself.
pub proof fn lemma_title_boundary_ok(s: Seq<u8>)
    requires
        s.len() == TITLE_MAX,
        forall|i: int| 0 <= i < s.len() ==> spec_is_plain(s[i]),
    ensures
        spec_normalize_title(s) == Ok::<_, TitleNormalizationError>(s),
{
    assert(!spec_is_title_whitespace(s[0]));
    assert(!spec_is_title_whitespace(s.last()));
    lemma_trim_identity(s);
    lemma_norm_rec_identity(s, false, Seq::empty());
    assert(Seq::<u8>::empty() + s =~= s);
}

/// A plain title one byte longer than the maximum fails with `TooLong`.
pub proof fn lemma_title_boundary_too_long(s: Seq<u8>)
    requires
        s.len() == TITLE_MAX + 1,
        forall|i: int| 0 <= i < s.len() ==> spec_is_plain(s[i]),
    ensures
        spec_normalize_title(s) == Err::<Seq<u8>, _>(TitleNormalizationError::TooLong),
{
    assert(!spec_is_title_whitespace(s[0]));
    assert(!spec_is_title_whitespace(s.last()));
    lemma_trim_identity(s);
    lemma_norm_rec_too_long(s, false, Seq::empty());
}

} // verus!
