use vstd::prelude::*;
use rand::Rng;
use rand::SeedableRng;

verus! {

/// The seedable generator the game draws positions and effects from.
#[verifier::external_type_specification]
#[verifier::external_body]
pub struct ExStdRng(rand::rngs::StdRng);

/// Relies on `rand::SeedableRng::from_entropy` for `StdRng`: a generator
/// seeded from the operating system. Nothing is known of its seed.
#[verifier::external_body]
pub(crate) fn entropy_rng() -> (r: rand::rngs::StdRng) {
    rand::rngs::StdRng::from_entropy()
}

/// Relies on `rand::SeedableRng::seed_from_u64` for `StdRng`: a generator
/// whose draws depend on `seed` alone.
#[verifier::external_body]
pub(crate) fn seeded_rng(seed: u64) -> (r: rand::rngs::StdRng) {
    rand::rngs::StdRng::seed_from_u64(seed)
}

/// Relies on `rand::Rng::gen_range` over `lo..hi`: a value in the half-open
/// range, which must not be empty (the call panics on an empty range).
#[verifier::external_body]
pub(crate) fn draw_in_range(rng: &mut rand::rngs::StdRng, lo: i32, hi: i32) -> (r: i32)
    requires
        lo < hi,
    ensures
        lo <= r < hi,
{
    rng.gen_range(lo..hi)
}

} // verus!
