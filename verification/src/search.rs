//! The most similar embedding of a collection: the first that holds the
//! greatest similarity.

use crate::store::Embeddings;
use vstd::prelude::*;

verus! {

/// The bits of a pattern without its sign, the highest bit.
pub open spec fn magnitude(bits: u32) -> int {
    (bits % 0x8000_0000) as int
}

/// Whether `bits` is the pattern of a not-a-number: all bits of the
/// exponent set, and some bit of the fraction.
pub open spec fn is_nan(bits: u32) -> bool {
    magnitude(bits) > 0x7f80_0000
}

/// Where the number with the pattern `bits` stands among the numbers: a
/// number is below another exactly when its rank is. Without the sign a
/// pattern grows with the number it stands for, and the sign turns the order
/// round; the two zeros share rank 0.
pub open spec fn rank(bits: u32) -> int {
    if bits < 0x8000_0000 {
        magnitude(bits)
    } else {
        -magnitude(bits)
    }
}

/// Whether `at` is the first index of `scores` that holds their maximum.
pub open spec fn is_first_maximum(scores: Seq<u32>, at: int) -> bool {
    &&& 0 <= at < scores.len()
    &&& forall|j: int| 0 <= j < scores.len() ==> rank(#[trigger] scores[j]) <= rank(scores[at])
    &&& forall|j: int| 0 <= j < at ==> rank(#[trigger] scores[j]) < rank(scores[at])
}

/// A list of scores has one first maximum and no more.
pub proof fn lemma_first_maximum_is_unique(scores: Seq<u32>, a: int, b: int)
    requires
        is_first_maximum(scores, a),
        is_first_maximum(scores, b),
    ensures
        a == b,
{
    if a < b {
        assert(rank(scores[a]) < rank(scores[b]));
    } else if b < a {
        assert(rank(scores[b]) < rank(scores[a]));
    }
}

/// Of two indices that both hold the maximum, the higher one is never the
/// first maximum: ties go to the lower index.
pub proof fn lemma_tie_goes_to_lower_index(scores: Seq<u32>, found: int, lower: int, higher: int)
    requires
        is_first_maximum(scores, found),
        0 <= lower < higher < scores.len(),
        rank(scores[lower]) == rank(scores[higher]),
        forall|j: int| 0 <= j < scores.len() ==> rank(#[trigger] scores[j]) <= rank(scores[lower]),
    ensures
        found <= lower,
        found != higher,
{
    if lower < found {
        assert(rank(scores[lower]) < rank(scores[found]));
    }
}

/// An index whose score is above every other score is the first maximum.
pub proof fn lemma_single_best_is_found(scores: Seq<u32>, found: int, best: int)
    requires
        is_first_maximum(scores, found),
        0 <= best < scores.len(),
        forall|j: int|
            0 <= j < scores.len() && j != best ==> rank(#[trigger] scores[j]) < rank(scores[best]),
    ensures
        found == best,
{
    if found != best {
        assert(rank(scores[found]) < rank(scores[best]));
    }
}

/// The rank of a score.
fn rank_of(bits: u32) -> (place: i64)
    ensures
        place == rank(bits),
{
    if bits < 0x8000_0000 {
        bits as i64
    } else {
        -((bits - 0x8000_0000) as i64)
    }
}

impl Embeddings {
    /// Position of the embedding that is most similar to a needle, given the
    /// similarity of each stored embedding to the needle, in their order
    /// and as bit patterns of binary32 numbers. Where several are the most
    /// similar, the first of them is taken. No similarity may be a
    /// not-a-number, and there must be one at least.
    pub fn find_most_similar(&self, similarities: &[u32]) -> (found: usize)
        requires
            similarities@.len() == self@.len(),
            similarities@.len() > 0,
            forall|i: int| 0 <= i < similarities@.len() ==> !is_nan(#[trigger] similarities@[i]),
        ensures
            is_first_maximum(similarities@, found as int),
    {
        let mut found: usize = 0;
        let mut best = rank_of(similarities[0]);
        let mut i: usize = 1;
        while i < similarities.len()
            invariant
                1 <= i <= similarities@.len(),
                best == rank(similarities@[found as int]),
                is_first_maximum(similarities@.take(i as int), found as int),
            decreases similarities@.len() - i,
        {
            let place = rank_of(similarities[i]);
            if place > best {
                found = i;
                best = place;
            }
            i += 1;
        }
        assert(similarities@.take(i as int) =~= similarities@);
        found
    }
}

} // verus!
