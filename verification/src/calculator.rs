use vstd::prelude::*;

use crate::address::Address;

verus! {

/// A rent calculator, as the EVM charges it.
pub trait EvmRentCalculator {
    /// Calculates and charges (burns) the outstanding rent of `who` at time
    /// `now` (milliseconds), then updates its status; returns the amount charged.
    fn process_rent(&mut self, who: Address, now: u64) -> u128;

    /// The amount of rent that charging `who` at time `now` would burn, and
    /// the number of rented days it pays for.
    fn estimate_rent(&self, who: Address, now: u64) -> (u128, u64);
}

/// The calculator that never charges anything.
impl EvmRentCalculator for () {
    fn process_rent(&mut self, who: Address, now: u64) -> (r: u128)
        ensures
            r == 0,
    {
        0u128
    }

    fn estimate_rent(&self, who: Address, now: u64) -> (r: (u128, u64))
        ensures
            r == (0u128, 0u64),
    {
        (0u128, 0u64)
    }
}

} // verus!
