//! Seeded pseudo-random numbers, drawn from the PCG-64 generator of `rand_pcg`.

use rand::Rng;
use rand::SeedableRng;
use rand_pcg::Pcg64;
use vstd::prelude::*;

verus! {

/// `rand_pcg::Pcg64` (an alias of `Lcg128Xsl64`), carried as an opaque value.
#[verifier::external_type_specification]
#[verifier::external_body]
pub struct ExPcg64(rand_pcg::Lcg128Xsl64);

/// Calls `SeedableRng::seed_from_u64` on `Pcg64`. Nothing is claimed of the
/// generator that comes back.
#[verifier::external_body]
pub(crate) fn seeded_generator(seed: u64) -> Pcg64 {
    Pcg64::seed_from_u64(seed)
}

/// Calls `Rng::random_range` with the inclusive range `low..=high`. The only
/// claim is the one its documentation makes for a non-empty range: the value
/// lies in the range. An empty range would panic, so it is excluded.
#[verifier::external_body]
pub(crate) fn draw_in_range(rng: &mut Pcg64, low: u32, high: u32) -> (drawn: u32)
    requires
        low <= high,
    ensures
        low <= drawn <= high,
{
    rng.random_range(low..=high)
}

} // verus!
