use rand::Rng;
use vstd::prelude::*;

verus! {

/// Relies on rand's `thread_rng` and `Rng::gen_range`: a value drawn from
/// `0..n`. `gen_range` panics on an empty range, hence `n > 0`.
#[verifier::external_body]
pub(crate) fn random_below(n: u32) -> (r: u32)
    requires
        n > 0,
    ensures
        r < n,
{
    rand::thread_rng().gen_range(0..n)
}

/// Relies on rand's `thread_rng` and `Rng::gen_ratio`: a fair coin, true with
/// a chance of one in two.
#[verifier::external_body]
pub(crate) fn random_bool() -> bool {
    rand::thread_rng().gen_ratio(1, 2)
}

} // verus!
