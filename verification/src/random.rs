//! The library's one source of randomness: a uniform integer draw.
use rand::Rng;
use vstd::prelude::*;

verus! {

/// Relies on rand's `Rng::gen_range` on the thread-local generator
/// `rand::thread_rng()`: it returns a uniform draw from `[start, end)` and
/// panics only when `start >= end`, which the precondition rules out.
/// Nothing is assumed about which value comes back beyond its range.
#[verifier::external_body]
pub fn random_int(start: usize, end: usize) -> (r: usize)
    requires
        start < end,
    ensures
        start <= r < end,
{
    rand::thread_rng().gen_range(start, end)
}

} // verus!
