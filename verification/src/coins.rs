//! The coin tosses of a seeded generator.
//!
//! The generator is `rand`'s `StdRng`. Nothing here is proved: the contracts
//! state that the generator is deterministic, and give its tosses a name.

use vstd::prelude::*;
use rand::rngs::StdRng;

verus! {

/// `rand::rngs::StdRng`, a value that Verus carries through without looking
/// inside.
#[verifier::external_type_specification]
#[verifier::external_body]
pub struct ExStdRng(StdRng);

/// The coin that `rng` yields on toss number `k` from now, toss 0 being the
/// next one: what the `k + 1`-th of successive calls of `Rng::gen::<bool>` on
/// it returns.
pub uninterp spec fn upcoming_coin(rng: StdRng, k: nat) -> bool;

/// The coin that a generator made by `SeedableRng::seed_from_u64(seed)` yields
/// on its toss number `k`, counted from 0.
pub uninterp spec fn seeded_coin(seed: u64, k: nat) -> bool;

/// Calls `StdRng::seed_from_u64`. The contract claims that the generator's
/// tosses depend on the seed alone.
#[verifier::external_body]
pub(crate) fn seeded_rng(seed: u64) -> (rng: StdRng)
    ensures
        forall|k: nat| upcoming_coin(rng, k) == seeded_coin(seed, k),
{
    <StdRng as rand::SeedableRng>::seed_from_u64(seed)
}

/// Calls `Rng::gen::<bool>` on the generator. The contract claims that the
/// call returns the generator's next coin and moves it on by one toss.
#[verifier::external_body]
pub(crate) fn toss(rng: &mut StdRng) -> (heads: bool)
    ensures
        heads == upcoming_coin(*old(rng), 0),
        forall|k: nat| upcoming_coin(*final(rng), k) == upcoming_coin(*old(rng), k + 1),
{
    rand::Rng::gen::<bool>(rng)
}

} // verus!
