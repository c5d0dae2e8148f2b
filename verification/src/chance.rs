//! The source of the game's random choices.

use vstd::prelude::*;
use rand::Rng;
use rand::rngs::StdRng;

verus! {

/// `rand`'s standard generator. Nothing is said of what it holds.
#[verifier::external_type_specification]
#[verifier::external_body]
pub struct ExStdRng(StdRng);

/// `Rng::gen_range` on a half-open range of `u64`: some number of the range,
/// which must not be empty. Nothing is said of which one.
#[verifier::external_body]
pub(crate) fn pick_below(rng: &mut StdRng, low: u64, high: u64) -> (n: u64)
    requires
        low < high,
    ensures
        low <= n < high,
{
    rng.gen_range(low..high)
}

} // verus!
