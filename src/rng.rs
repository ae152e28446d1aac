use vstd::prelude::*;

use rand::Rng;

verus! {

/// Relies on `rand::Rng::gen_range` over `rand::thread_rng()`: for a non-empty
/// range `0..bound` it returns a value inside the range (it panics only on an
/// empty range, which `requires` leaves out).
#[verifier::external_body]
pub(crate) fn random_below(bound: u64) -> (r: u64)
    requires
        bound > 0,
    ensures
        r < bound,
{
    rand::thread_rng().gen_range(0..bound)
}

} // verus!
