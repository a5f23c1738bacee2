//! Uniform shuffling of the content pools and the roster order, through
//! the `rand` crate. The contract of the shuffle is that it permutes —
//! which permutation comes out depends on the thread-local generator
//! and is deliberately left unspecified.

use vstd::prelude::*;
use rand::seq::SliceRandom;

verus! {

/// Relies on rand's `SliceRandom::shuffle`: a Fisher-Yates shuffle
/// rearranges the slice in place purely by swapping elements, so the
/// result holds exactly the old elements, as a multiset. Nothing is
/// promised about the order.
#[verifier::external_body]
pub(crate) fn shuffle<T>(v: &mut Vec<T>)
    ensures
        final(v)@.len() == old(v)@.len(),
        final(v)@.to_multiset() == old(v)@.to_multiset(),
{
    v.shuffle(&mut rand::thread_rng());
}

/// A permutation of a duplicate-free sequence is duplicate-free.
pub proof fn lemma_permutation_no_duplicates<T>(a: Seq<T>, b: Seq<T>)
    requires
        a.to_multiset() == b.to_multiset(),
        a.no_duplicates(),
    ensures
        b.no_duplicates(),
{
    a.lemma_multiset_has_no_duplicates();
    b.lemma_multiset_has_no_duplicates_conv();
}

/// A permutation holds exactly the same elements.
pub proof fn lemma_permutation_contains<T>(a: Seq<T>, b: Seq<T>, x: T)
    requires
        a.to_multiset() == b.to_multiset(),
    ensures
        a.contains(x) == b.contains(x),
{
    a.to_multiset_ensures();
    b.to_multiset_ensures();
    assert(a.contains(x) <==> a.to_multiset().count(x) > 0);
    assert(b.contains(x) <==> b.to_multiset().count(x) > 0);
}

} // verus!
