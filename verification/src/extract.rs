//! The sub-view extractor: given a sequence and a half-open index range,
//! borrow the contiguous span it addresses, copying no element data.

use vstd::prelude::*;
use vstd::slice::slice_subrange;

verus! {

/// The single error kind: a requested range does not lie within its
/// sequence.  It aborts the extraction that raised it; indices are never
/// silently clamped or wrapped.
#[derive(Clone, Copy, Debug, PartialEq, Eq, Structural)]
pub struct OutOfBounds;

/// The half-open range `[start, end)` addresses valid positions of a
/// sequence of length `len`.
pub open spec fn range_ok(start: int, end: int, len: int) -> bool {
    0 <= start <= end <= len
}

/// Borrows the elements at positions `[start, end)` of `s` as a view.
/// Fails with `OutOfBounds` exactly when the range is inverted or reaches
/// past the end of the sequence; a valid range always succeeds, and the
/// view's length is then the range's width.
pub fn extract<'a, T>(s: &'a [T], start: usize, end: usize) -> (r: Result<&'a [T], OutOfBounds>)
    ensures
        r is Ok <==> range_ok(start as int, end as int, s@.len() as int),
        r matches Ok(v) ==> v@ == s@.subrange(start as int, end as int),
        r matches Ok(v) ==> v@.len() == end - start,
{
    if start <= end && end <= s.len() {
        Ok(slice_subrange(s, start, end))
    } else {
        Err(OutOfBounds)
    }
}

/// Shortcut form with the start omitted: the view begins at position 0.
pub fn extract_to<'a, T>(s: &'a [T], end: usize) -> (r: Result<&'a [T], OutOfBounds>)
    ensures
        r is Ok <==> end <= s@.len(),
        r matches Ok(v) ==> v@ == s@.subrange(0, end as int),
{
    extract(s, 0, end)
}

/// Shortcut form with the end omitted: the view runs to the sequence's
/// length.
pub fn extract_from<'a, T>(s: &'a [T], start: usize) -> (r: Result<&'a [T], OutOfBounds>)
    ensures
        r is Ok <==> start <= s@.len(),
        r matches Ok(v) ==> v@ == s@.subrange(start as int, s@.len() as int),
{
    extract(s, start, s.len())
}

/// Shortcut form with both bounds omitted: a view of the whole sequence.
/// No range is supplied, so this form cannot fail.
pub fn extract_all<'a, T>(s: &'a [T]) -> (r: &'a [T])
    ensures
        r@ == s@,
{
    let r = extract(s, 0, s.len());
    proof {
        lemma_full_range_is_whole(s@);
    }
    r.unwrap()
}

/// Law: extracting over the full range `[0, len)` yields the same view as
/// the unranged full-sequence shortcut.
pub proof fn lemma_full_range_is_whole<T>(s: Seq<T>)
    ensures
        s.subrange(0, s.len() as int) == s,
{
    assert(s.subrange(0, s.len() as int) =~= s);
}

/// Law: extraction is idempotent.  Two views taken over the same range of
/// the same sequence, each as `extract`'s contract describes the view it
/// returns, have identical contents.
pub proof fn lemma_extract_idempotent<T>(s: Seq<T>, start: int, end: int, v1: Seq<T>, v2: Seq<T>)
    requires
        v1 == s.subrange(start, end),
        v2 == s.subrange(start, end),
    ensures
        v1 == v2,
{
}

/// Law: an inverted range (`start > end`) addresses no sequence at all, so
/// `extract` rejects it with `OutOfBounds` whatever the sequence's length.
pub proof fn lemma_inverted_range_rejected(start: int, end: int, len: int)
    requires
        start > end,
    ensures
        !range_ok(start, end, len),
{
}

} // verus!
