//! The generator's only sources of randomness, wrapped so that the rest of
//! the crate is verified for every value the generator may draw.

use vstd::prelude::*;
use rand::Rng;

verus! {

/// Relies on `rand::Rng::gen_range` on `rand::thread_rng()`: a draw from
/// `[low, high)`, which panics only when `low >= high`.
#[verifier::external_body]
pub fn rand_range(low: i32, high: i32) -> (r: i32)
    requires
        low < high,
    ensures
        low <= r < high,
{
    rand::thread_rng().gen_range(low, high)
}

/// Relies on `rand::random::<bool>`: an unbiased coin flip. Nothing is
/// promised of the value; callers must be correct for either outcome.
#[verifier::external_body]
pub fn rand_bool() -> bool {
    rand::random()
}

} // verus!
