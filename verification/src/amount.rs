//! Amounts of money.

use vstd::prelude::*;

verus! {

/// An amount of money in millisatoshi.
#[derive(Clone, Copy, Debug, PartialEq, Eq, Structural, PartialOrd, Ord, Hash)]
pub struct Amount {
    pub msats: u64,
}

impl Amount {
    /// No money.
    pub open spec fn spec_zero() -> Amount {
        Amount { msats: 0 }
    }

    /// No money.
    pub fn zero() -> (amount: Amount)
        ensures
            amount == Amount::spec_zero(),
    {
        Amount { msats: 0 }
    }

    /// The amount of that many millisatoshi.
    pub fn from_msats(msats: u64) -> (amount: Amount)
        ensures
            amount.msats == msats,
    {
        Amount { msats }
    }

    /// The sum of two amounts, or `None` where it is too large to hold.
    pub fn checked_add(self, other: Amount) -> (sum: Option<Amount>)
        ensures
            sum is Some <==> self.msats + other.msats <= u64::MAX,
            sum matches Some(total) ==> total.msats == self.msats + other.msats,
    {
        if other.msats <= u64::MAX - self.msats {
            Some(Amount { msats: self.msats + other.msats })
        } else {
            None
        }
    }

    /// What is left of this amount after taking `other` away, and nothing
    /// where `other` is the larger one.
    pub fn saturating_sub(self, other: Amount) -> (rest: Amount)
        ensures
            rest.msats == if self.msats >= other.msats {
                self.msats - other.msats
            } else {
                0
            },
    {
        if self.msats >= other.msats {
            Amount { msats: self.msats - other.msats }
        } else {
            Amount { msats: 0 }
        }
    }
}

} // verus!
