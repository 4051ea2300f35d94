//! The token boundary scanner: scan a byte sequence in order from position
//! 0 and stop at the first separator.  One variant returns the boundary as
//! an offset, the other returns the first token itself as a sub-view.
//!
//! The scan works on byte positions, never on decoded characters; a
//! multi-byte encoding is the caller's concern.

use vstd::prelude::*;
use vstd::slice::slice_index_get;
use crate::extract::extract;

verus! {

/// The separator that ends a token: a single ASCII space byte.
pub const SEPARATOR: u8 = 32;

/// The boundary of the first token: the least position holding the
/// separator, or the sequence's length when the separator never occurs.
pub open spec fn first_word_end(s: Seq<u8>) -> int
    decreases s.len(),
{
    if s.len() == 0 {
        0
    } else if s[0] == SEPARATOR {
        0
    } else {
        1 + first_word_end(s.subrange(1, s.len() as int))
    }
}

/// Law: the boundary never passes the sequence's length; no position before
/// it holds the separator; and whenever it stops short of the length, it
/// stops on a separator.
pub proof fn lemma_first_word_end_bounds(s: Seq<u8>)
    ensures
        0 <= first_word_end(s) <= s.len(),
        forall|i: int| 0 <= i < first_word_end(s) ==> s[i] != SEPARATOR,
        first_word_end(s) < s.len() ==> s[first_word_end(s)] == SEPARATOR,
    decreases s.len(),
{
    if s.len() == 0 {
    } else if s[0] == SEPARATOR {
    } else {
        let t = s.subrange(1, s.len() as int);
        lemma_first_word_end_bounds(t);
        assert forall|i: int| 0 <= i < first_word_end(s) implies s[i] != SEPARATOR by {
            if i > 0 {
                assert(s[i] == t[i - 1]);
            }
        }
        if first_word_end(s) < s.len() {
            assert(s[first_word_end(s)] == t[first_word_end(t)]);
        }
    }
}

/// Any position that has no separator before it, and that either is the
/// sequence's length or holds the separator, is the boundary: those two
/// facts pin `first_word_end` down.
pub proof fn lemma_first_word_end_unique(s: Seq<u8>, k: int)
    requires
        0 <= k <= s.len(),
        forall|i: int| 0 <= i < k ==> s[i] != SEPARATOR,
        k < s.len() ==> s[k] == SEPARATOR,
    ensures
        first_word_end(s) == k,
    decreases s.len(),
{
    if s.len() == 0 {
    } else if s[0] == SEPARATOR {
        if k > 0 {
            assert(s[0] != SEPARATOR);
        }
    } else {
        let t = s.subrange(1, s.len() as int);
        assert(k >= 1);
        assert forall|i: int| 0 <= i < k - 1 implies t[i] != SEPARATOR by {
            assert(t[i] == s[i + 1]);
        }
        if k - 1 < t.len() {
            assert(t[k - 1] == s[k]);
        }
        lemma_first_word_end_unique(t, k - 1);
    }
}

/// Offset form of the scanner: the index of the first separator byte, or
/// the sequence's whole length when no separator occurs (the whole sequence
/// is then one token; this is deliberate policy, not a failure).  The scan
/// cannot fail on any sequence, the empty one included.
pub fn first_word_offset(s: &[u8]) -> (r: usize)
    ensures
        r == first_word_end(s@),
        r <= s@.len(),
{
    let n: usize = s.len();
    let mut i: usize = 0;
    while i < n
        invariant
            i <= n,
            n == s@.len(),
            forall|j: int| 0 <= j < i ==> s@[j] != SEPARATOR,
        decreases n - i,
    {
        if *slice_index_get(s, i) == SEPARATOR {
            proof {
                lemma_first_word_end_unique(s@, i as int);
            }
            return i;
        }
        i = i + 1;
    }
    proof {
        lemma_first_word_end_unique(s@, n as int);
    }
    n
}

/// View form of the scanner: the first token itself, extracted as the
/// sub-view of `s` up to the first separator, or the whole of `s` when no
/// separator occurs.  Taking a slice lets one function serve both an owned
/// buffer (through `&`) and an already-borrowed view, with no overloads.
pub fn first_word<'a>(s: &'a [u8]) -> (r: &'a [u8])
    ensures
        r@ == s@.subrange(0, first_word_end(s@)),
{
    let end: usize = first_word_offset(s);
    let r = extract(s, 0, end);
    r.unwrap()
}

/// Law: a sequence that holds no separator is one single token.  The
/// boundary is then the whole length, and the first-word view covers the
/// entire sequence.
pub proof fn lemma_no_separator_whole_token(s: Seq<u8>)
    requires
        forall|i: int| 0 <= i < s.len() ==> s[i] != SEPARATOR,
    ensures
        first_word_end(s) == s.len(),
        s.subrange(0, first_word_end(s)) == s,
{
    lemma_first_word_end_unique(s, s.len() as int);
    assert(s.subrange(0, s.len() as int) =~= s);
}

/// Law: on the empty sequence the boundary is 0 and the first-word view is
/// the empty view.
pub proof fn lemma_empty_sequence(s: Seq<u8>)
    requires
        s.len() == 0,
    ensures
        first_word_end(s) == 0,
        s.subrange(0, first_word_end(s)).len() == 0,
{
}

} // verus!
