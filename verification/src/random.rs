//! Random reordering, delegated to the `rand` crate.
use vstd::prelude::*;
use rand::seq::SliceRandom;

verus! {

/// Shuffles `v` in place with `rand::seq::SliceRandom::shuffle`, drawing from
/// the thread-local generator `rand::rng()`.
///
/// Trusted: `shuffle` only swaps elements of the slice, so the result holds
/// the same elements as before, each as often as before. Which order comes
/// out depends on the generator and is left open; so is the case where the
/// operating system cannot seed the generator, in which `rand::rng()` panics.
#[verifier::external_body]
pub(crate) fn shuffle_in_place<T>(v: &mut Vec<T>)
    ensures
        final(v)@.to_multiset() == old(v)@.to_multiset(),
{
    v.as_mut_slice().shuffle(&mut rand::rng());
}

} // verus!
