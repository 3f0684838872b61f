//! The library's single source of randomness.

use vstd::prelude::*;
use rand::Rng;

verus! {

/// Relies on `rand::thread_rng` and `rand::Rng::gen_range` on an inclusive
/// `u64` range: the sample lies within the bounds, and the call panics only
/// on an empty range, which the precondition rules out.
#[verifier::external_body]
pub(crate) fn rand_in(lo: u64, hi: u64) -> (r: u64)
    requires
        lo <= hi,
    ensures
        lo <= r <= hi,
{
    rand::thread_rng().gen_range(lo..=hi)
}

/// Draw once against a probability given in units of 1/10000: a draw below
/// `rate` succeeds, so rate 0 never succeeds and rate 10000 always does.
pub(crate) fn roll(rate: u32) -> (r: bool)
    ensures
        rate == 0 ==> !r,
        rate >= crate::RATE_ONE ==> r,
{
    let sample = rand_in(0, (crate::RATE_ONE - 1) as u64);
    sample < rate as u64
}

} // verus!
