//! The random choices a deck needs, taken from `rand`'s thread-local
//! generator.

use rand::rngs::ThreadRng;
use rand::seq::SliceRandom;
use rand::Rng;
use vstd::prelude::*;

verus! {

/// `rand::rngs::ThreadRng`, a handle to the thread's generator, taken as an
/// opaque value.
#[verifier::external_type_specification]
#[verifier::external_body]
pub struct ExThreadRng(rand::rngs::ThreadRng);

/// `rand::rng` hands out the handle to the thread-local generator, which is
/// seeded from the operating system when a thread first asks for it. Nothing
/// is claimed of the handle. It takes no input; it fails only where the
/// system hands out no random bytes.
pub assume_specification[ rand::rng ]() -> (generator: rand::rngs::ThreadRng)
;

/// `Rng::random_range` on the half-open range `low..high`: the value it
/// returns lies in the range. It panics on an empty range, so the range must
/// not be empty. Which value comes back is left open.
#[verifier::external_body]
pub(crate) fn random_between(generator: &mut ThreadRng, low: usize, high: usize) -> (picked: usize)
    requires
        low < high,
    ensures
        low <= picked < high,
{
    generator.random_range(low..high)
}

/// `SliceRandom::shuffle` on the items of a vector: it only swaps items of
/// the slice with one another, so the same items are there afterwards, each
/// as often as before. In which order they come is left open.
#[verifier::external_body]
pub(crate) fn shuffle_in_place<T>(items: &mut Vec<T>, generator: &mut ThreadRng)
    ensures
        final(items)@.to_multiset() == old(items)@.to_multiset(),
{
    items.shuffle(generator)
}

} // verus!
