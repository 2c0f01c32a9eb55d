//! The random source from which a universe is repopulated.

use rand::rngs::StdRng;
use rand::Rng;
use vstd::prelude::*;

verus! {

/// The standard generator of the `rand` crate, which a caller seeds and hands
/// in. Nothing of its state is visible to the proofs.
#[verifier::external_type_specification]
#[verifier::external_body]
pub struct ExStdRng(StdRng);

/// Draws a boolean from `rng` that is true with `numerator` chances in
/// `denominator`, by `Rng::gen_ratio`.
///
/// Taken on trust from that function's documentation: it panics only for a
/// zero denominator or a numerator above the denominator, which are kept out
/// here; the draw is certainly true when the two are equal and certainly
/// false when the numerator is zero. Of any other draw nothing is claimed.
#[verifier::external_body]
pub(crate) fn gen_ratio(rng: &mut StdRng, numerator: u32, denominator: u32) -> (hit: bool)
    requires
        0 < denominator,
        numerator <= denominator,
    ensures
        numerator == denominator ==> hit,
        numerator == 0 ==> !hit,
{
    rng.gen_ratio(numerator, denominator)
}

} // verus!
