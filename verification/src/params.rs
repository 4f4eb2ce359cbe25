//! Policy constants of the stake ledger.

use vstd::prelude::*;

verus! {

/// Blocks between the creation of a stake and the height at which it
/// becomes eligible (`t_m`).
pub const MATURITY_PERIOD: u64 = 0;

/// Blocks a stake stays active once eligible (`t_b`); `extend` adds this
/// amount to the expiration height.
pub const EXPIRATION_PERIOD: u64 = 250_000;

/// Blocks that must pass after the expiration height before a stake may be
/// withdrawn (`t_c`).
pub const COOLDOWN_PERIOD: u64 = 0;

/// Smallest amount that may be staked: 10,000 units at 10 decimal places.
pub const MINIMUM_STAKE: u64 = 100_000_000_000_000;

/// Largest amount that may be staked: 1,000,000 units at 10 decimal places.
pub const MAXIMUM_STAKE: u64 = 10_000_000_000_000_000;

/// Exact value the evidence-submission note must carry when slashing:
/// 5,000 units at 10 decimal places.
pub const PENALTY: u64 = 50_000_000_000_000;

/// Below this block height the slashed remainder goes to the arbitration
/// destination; from it on, to the void destination.
pub const ARBITRATION_CUTOFF_HEIGHT: u64 = 6_311_520;

/// A stake of `value` is admissible iff it lies within the policy bounds.
pub open spec fn stake_value_in_bounds(value: u64) -> bool {
    MINIMUM_STAKE <= value && value <= MAXIMUM_STAKE
}

} // verus!
