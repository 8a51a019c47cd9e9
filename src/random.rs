use vstd::prelude::*;
use rand::Rng;
use rand::rngs::StdRng;

verus! {

/// rand's standard seedable generator, carried through generation as is.
#[verifier::external_type_specification]
#[verifier::external_body]
pub struct ExStdRng(StdRng);

/// Relies on rand::Rng::gen_range over an inclusive range: a value drawn
/// from `lo..=hi`, which panics only when the range is empty.
#[verifier::external_body]
pub(crate) fn random_in(rng: &mut StdRng, lo: i32, hi: i32) -> (r: i32)
    requires
        lo <= hi,
    ensures
        lo <= r <= hi,
{
    rng.gen_range(lo..=hi)
}

/// Relies on rand::Rng::gen for `bool`: a fair coin flip.
#[verifier::external_body]
pub(crate) fn coin_flip(rng: &mut StdRng) -> (r: bool) {
    rng.gen::<bool>()
}

} // verus!
