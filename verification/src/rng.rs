//! The crate's randomness boundary. Every random decision is drawn through
//! the few functions here; each states only what holds of every outcome, and
//! the logic that consumes a draw is verified for every value of it.

use vstd::prelude::*;
use rand::Rng;
use rand::seq::IndexedRandom;
use rand::seq::SliceRandom;

verus! {

/// rand's thread-local generator, the crate's source of random draws. The
/// type is opaque here: everything known of a draw is stated on the wrapper
/// that makes it.
#[verifier::external_type_specification]
#[verifier::external_body]
pub struct ExThreadRng(rand::rngs::ThreadRng);

/// Relies on `rand::rng`: a handle to the thread-local generator.
#[verifier::external_body]
pub(crate) fn fresh_rng() -> rand::rngs::ThreadRng {
    rand::rng()
}

/// Relies on `Rng::random_range` over `0..n`: a uniform draw below `n`. The
/// call panics only on an empty range, which the precondition rules out.
#[verifier::external_body]
pub(crate) fn rand_below(rng: &mut rand::rngs::ThreadRng, n: u64) -> (r: u64)
    requires
        n > 0,
    ensures
        r < n,
{
    rng.random_range(0..n)
}

/// Relies on `IndexedRandom::choose`: `None` on an empty slice, otherwise a
/// uniformly sampled element, returned here as a clone.
#[verifier::external_body]
pub(crate) fn choose_string(rng: &mut rand::rngs::ThreadRng, v: &Vec<String>) -> (r: Option<
    String,
>)
    ensures
        (r is Some) <==> v@.len() > 0,
        r is Some ==> exists|i: int| 0 <= i < v@.len() && r->Some_0 == v@[i],
{
    v.as_slice().choose(rng).cloned()
}

/// Relies on `IndexedRandom::choose`: `None` on an empty slice, otherwise a
/// uniformly sampled element.
#[verifier::external_body]
pub(crate) fn choose_index(rng: &mut rand::rngs::ThreadRng, v: &Vec<usize>) -> (r: Option<usize>)
    ensures
        (r is Some) <==> v@.len() > 0,
        r is Some ==> v@.contains(r->Some_0),
{
    v.as_slice().choose(rng).copied()
}

/// Relies on `SliceRandom::shuffle`: an in-place permutation of the slice,
/// which preserves the multiset of its elements and so also the multiset of
/// their character sequences.
#[verifier::external_body]
pub(crate) fn shuffle_strings(rng: &mut rand::rngs::ThreadRng, v: &mut Vec<String>)
    ensures
        final(v)@.len() == old(v)@.len(),
        final(v)@.to_multiset() == old(v)@.to_multiset(),
        final(v).deep_view().to_multiset() == old(v).deep_view().to_multiset(),
{
    v.as_mut_slice().shuffle(rng)
}

} // verus!
