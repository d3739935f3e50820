//! Draws from the pseudorandom generator that every mutation is handed.

use rand::rngs::StdRng;
use rand::Rng;
use vstd::prelude::*;

verus! {

#[verifier::external_type_specification]
#[verifier::external_body]
pub struct ExStdRng(StdRng);

/// `Rng::random::<u64>` on the generator: the next 64 bits of its stream.
/// Nothing is claimed of the value.
#[verifier::external_body]
pub(crate) fn draw_u64(rng: &mut StdRng) -> (value: u64) {
    rng.random::<u64>()
}

/// `Rng::random::<u32>` on the generator: the next 32 bits of its stream.
/// Nothing is claimed of the value.
#[verifier::external_body]
pub(crate) fn draw_u32(rng: &mut StdRng) -> (value: u32) {
    rng.random::<u32>()
}

} // verus!
