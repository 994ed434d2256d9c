//! Trusted boundary to the seeded pseudo-random generator of the `rand`
//! crate. The generator is deterministic: for a fixed crate version, the
//! word stream depends on the seed alone, on every machine and in every
//! process. The stream is named by `rng_word`; a generator value carries
//! its seed and its position in the stream.

use vstd::prelude::*;
use rand::SeedableRng;
use rand::RngCore;

verus! {

#[verifier::external_type_specification]
#[verifier::external_body]
pub struct ExStdRng(rand::rngs::StdRng);

/// The seed a generator was created from.
pub uninterp spec fn rng_seed(r: rand::rngs::StdRng) -> u64;

/// How many words the generator has handed out so far.
pub uninterp spec fn rng_index(r: rand::rngs::StdRng) -> int;

/// The i-th 64-bit word of the output stream for a seed.
pub uninterp spec fn rng_word(seed: u64, i: int) -> u64;

/// Relies on rand's StdRng::seed_from_u64: builds the deterministic
/// generator for a seed, positioned at the start of its stream.
#[verifier::external_body]
pub(crate) fn rng_from_seed(seed: u64) -> (r: rand::rngs::StdRng)
    ensures
        rng_seed(r) == seed,
        rng_index(r) == 0,
{
    rand::rngs::StdRng::seed_from_u64(seed)
}

/// Relies on rand's RngCore::next_u64: hands out the next word of the
/// stream and advances the generator by one position.
#[verifier::external_body]
pub(crate) fn rng_next(r: &mut rand::rngs::StdRng) -> (w: u64)
    ensures
        rng_seed(*final(r)) == rng_seed(*old(r)),
        rng_index(*final(r)) == rng_index(*old(r)) + 1,
        w == rng_word(rng_seed(*old(r)), rng_index(*old(r))),
{
    r.next_u64()
}

} // verus!
