//! The Hamming metric on bit sequences, together with the metric laws
//! (identity, symmetry, triangle inequality) that make fingerprint
//! distances meaningful for similarity search.

use vstd::prelude::*;

verus! {

/// The Hamming distance between two bit sequences of equal length:
/// the number of positions at which they differ.
pub open spec fn hamming(a: Seq<bool>, b: Seq<bool>) -> int
    decreases a.len(),
{
    if a.len() == 0 {
        0
    } else {
        hamming(a.drop_last(), b.drop_last()) + if a.last() != b.last() {
            1int
        } else {
            0int
        }
    }
}

/// The distance is non-negative and never exceeds the length of the
/// first sequence.
pub proof fn lemma_hamming_bounds(a: Seq<bool>, b: Seq<bool>)
    ensures
        0 <= hamming(a, b) <= a.len(),
    decreases a.len(),
{
    if a.len() > 0 {
        lemma_hamming_bounds(a.drop_last(), b.drop_last());
    }
}

/// Identity: a bit sequence lies at distance zero from itself, so a
/// fingerprint compared against an equal fingerprint yields zero.
pub proof fn lemma_hamming_self(a: Seq<bool>)
    ensures
        hamming(a, a) == 0,
    decreases a.len(),
{
    if a.len() > 0 {
        lemma_hamming_self(a.drop_last());
    }
}

/// Symmetry: the distance does not depend on the order of its arguments.
pub proof fn lemma_hamming_symmetric(a: Seq<bool>, b: Seq<bool>)
    requires
        a.len() == b.len(),
    ensures
        hamming(a, b) == hamming(b, a),
    decreases a.len(),
{
    if a.len() > 0 {
        lemma_hamming_symmetric(a.drop_last(), b.drop_last());
    }
}

/// Triangle inequality: going through an intermediate sequence can only
/// lengthen the way.
pub proof fn lemma_hamming_triangle(a: Seq<bool>, b: Seq<bool>, c: Seq<bool>)
    requires
        a.len() == b.len(),
        a.len() == c.len(),
    ensures
        hamming(a, b) <= hamming(a, c) + hamming(c, b),
    decreases a.len(),
{
    if a.len() > 0 {
        lemma_hamming_triangle(a.drop_last(), b.drop_last(), c.drop_last());
    }
}

/// Extending both prefixes by one position adds one to the distance
/// exactly when the new bits differ.
pub proof fn lemma_hamming_take_succ(a: Seq<bool>, b: Seq<bool>, i: int)
    requires
        a.len() == b.len(),
        0 <= i < a.len(),
    ensures
        hamming(a.take(i + 1), b.take(i + 1)) == hamming(a.take(i), b.take(i)) + if a[i] != b[i] {
            1int
        } else {
            0int
        },
{
    assert(a.take(i + 1).drop_last() =~= a.take(i));
    assert(b.take(i + 1).drop_last() =~= b.take(i));
    assert(a.take(i + 1).last() == a[i]);
    assert(b.take(i + 1).last() == b[i]);
}

} // verus!
