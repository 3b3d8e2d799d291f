//! Draws from the thread's random number generator.
use vstd::prelude::*;

verus! {

/// Relies on rand::random: a byte array drawn from the thread's generator.
#[verifier::external_body]
pub(crate) fn random_bytes<const N: usize>() -> (r: [u8; N]) {
    rand::random()
}

/// Relies on rand::random_range over `0..n`: a value inside the range, which
/// must not be empty.
#[verifier::external_body]
pub(crate) fn random_below(n: u64) -> (r: u64)
    requires
        n > 0,
    ensures
        r < n,
{
    rand::random_range(0..n)
}

/// Relies on rand::random_ratio(1, 2): true or false, each half of the time.
#[verifier::external_body]
pub(crate) fn coin_flip() -> (r: bool) {
    rand::random_ratio(1, 2)
}

/// Relies on rand's SliceRandom::shuffle: it only swaps elements.
#[verifier::external_body]
pub(crate) fn shuffle<T>(v: &mut Vec<T>)
    ensures
        final(v)@.to_multiset() == old(v)@.to_multiset(),
{
    rand::seq::SliceRandom::shuffle(v.as_mut_slice(), &mut rand::rng())
}

/// Relies on rand's IndexedRandom::choose: nothing from an empty slice, else
/// one of its elements.
#[verifier::external_body]
pub(crate) fn pick_one<T>(v: &Vec<T>) -> (r: Option<&T>)
    ensures
        r is None <==> v@.len() == 0,
        r is Some ==> exists|i: int| 0 <= i < v@.len() && v@[i] == *r->Some_0,
{
    rand::seq::IndexedRandom::choose(v.as_slice(), &mut rand::rng())
}

} // verus!
