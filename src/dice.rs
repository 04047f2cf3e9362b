//! The random source the rules draw from: a generator owned by the caller.
use rand::rngs::StdRng;
use rand::Rng;
use vstd::prelude::*;

verus! {

#[verifier::external_type_specification]
#[verifier::external_body]
pub struct ExStdRng(StdRng);

/// Relies on rand's `Rng::gen_range` over the inclusive range `lo..=hi`: it
/// returns a value between both bounds, and panics only when the range is empty.
#[verifier::external_body]
pub(crate) fn roll(rng: &mut StdRng, lo: u32, hi: u32) -> (r: u32)
    requires
        lo <= hi,
    ensures
        lo <= r <= hi,
{
    rng.gen_range(lo..=hi)
}

} // verus!
