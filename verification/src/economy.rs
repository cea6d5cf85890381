//! The money the player holds.

use vstd::prelude::*;

verus! {

/// What the player holds when the simulation starts.
pub const INITIAL_MONEY: u64 = 100;

/// What one pig costs.
pub const PIG_PRICE: u64 = 10;

/// What an expired pig pays.
pub const PIG_PAYOUT: u64 = 15;

/// The player's balance. It is never in debt: what cannot be paid in full is
/// not paid at all.
#[derive(Clone, Copy, Debug, PartialEq, Eq, Structural)]
pub struct Money(pub u64);

impl Money {
    /// Pays `cost` if the balance covers it, and says whether it did. A
    /// balance that does not cover the cost is left as it was.
    pub fn spend(&mut self, cost: u64) -> (paid: bool)
        ensures
            paid == (old(self).0 >= cost),
            paid ==> final(self).0 == old(self).0 - cost,
            !paid ==> *final(self) == *old(self),
    {
        if self.0 >= cost {
            self.0 = self.0 - cost;
            true
        } else {
            false
        }
    }

    /// Adds `amount` to the balance.
    pub fn credit(&mut self, amount: u64)
        requires
            old(self).0 + amount <= u64::MAX,
        ensures
            final(self).0 == old(self).0 + amount,
    {
        self.0 = self.0 + amount;
    }
}

} // verus!
