//! The single randomness primitive the simulation draws from.

use rand::Rng;
use vstd::prelude::*;

verus! {

/// Relies on `rand::Rng::gen_range` over the inclusive range `lo..=hi`, on
/// the generator `rand::thread_rng()`: the sample always lies within the
/// range, and the range is non-empty (`lo <= hi`), so the call cannot panic.
/// Nothing more is assumed of the sample: callers hold for every outcome.
#[verifier::external_body]
pub(crate) fn random_in_range(lo: i64, hi: i64) -> (r: i64)
    requires
        lo <= hi,
    ensures
        lo <= r <= hi,
{
    rand::thread_rng().gen_range(lo..=hi)
}

} // verus!
