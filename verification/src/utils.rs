//! Constants of the pool and small arithmetic helpers.

use vstd::prelude::*;
use crate::errors::Error;
use crate::math::mul_div_rem;

verus! {

/// A count of epochs, as the host's clock gives it.
pub type EpochHeight = u64;

/// No deposit balance.
pub const NO_DEPOSIT: u128 = 0;

/// One NEAR, in yoctoNEAR.
pub const ONE_NEAR: u128 = 1_000_000_000_000_000_000_000_000;

/// What the pool stakes for itself when it is created.
pub const INIT_STAKING_AMOUNT: u128 = 10_000_000_000_000_000_000_000_000;

/// What the pool keeps for its own storage when it is created.
pub const INIT_STORAGE_OCCUPY: u128 = 10_000_000_000_000_000_000_000_000;

/// The number of epochs after which an unstaked balance is released.
pub const NUM_EPOCHS_TO_UNLOCK: EpochHeight = 4;

/// Full basis points, i.e. 10,000.
pub const FULL_BASIS_POINTS: u32 = 10_000;

/// The largest number of beneficiaries.
pub const MAX_BENEFICIARIES: u32 = 10;

/// The balance that the pool never spends, to cover its storage.
pub const CONTRACT_MIN_RESERVE_BALANCE: u128 = 1_000_000_000_000_000_000_000_000;

/// The smallest of three amounts.
pub open spec fn spec_min3(x: int, y: int, z: int) -> int {
    if x <= y && x <= z {
        x
    } else if y <= z {
        y
    } else {
        z
    }
}

/// The smallest of three amounts.
pub fn min3(x: u128, y: u128, z: u128) -> (m: u128)
    ensures
        m == spec_min3(x as int, y as int, z as int),
{
    let yz = if y <= z {
        y
    } else {
        z
    };
    if x <= yz {
        x
    } else {
        yz
    }
}

/// Whether `left` and `right` differ by `epsilon` at most.
pub fn abs_diff_eq(left: u128, right: u128, epsilon: u128) -> (close: bool)
    ensures
        close == (left <= right + epsilon && right <= left + epsilon),
{
    if left >= right {
        left - right <= epsilon
    } else {
        right - left <= epsilon
    }
}

/// `points` basis points of `value`, rounded down.
pub fn bps_mul(value: u128, points: u32) -> (part: u128)
    requires
        value * points / 10_000 <= u128::MAX,
    ensures
        part == value * points / 10_000,
{
    match mul_div_rem(value, points as u128, FULL_BASIS_POINTS as u128) {
        Some((q, _)) => q,
        None => 0,
    }
}

/// A fraction of the rewards, as the staking pools of the network state their fee.
#[derive(Clone, Copy, Debug, PartialEq, Eq, Structural)]
pub struct RewardFeeFraction {
    pub numerator: u32,
    pub denominator: u32,
}

impl RewardFeeFraction {
    /// A fraction is valid when its denominator is positive and it is one at most.
    pub open spec fn valid(&self) -> bool {
        self.denominator != 0 && self.numerator <= self.denominator
    }

    /// Checks that the fraction is valid, and says what is wrong with one that is not.
    pub fn assert_valid(&self) -> (r: Result<(), Error>)
        ensures
            self.denominator == 0 ==> r == Err::<(), Error>(Error::ZeroDenominator),
            self.denominator != 0 && self.numerator > self.denominator ==> r == Err::<(), Error>(
                Error::FractionAboveOne,
            ),
            self.valid() ==> r is Ok,
    {
        if self.denominator == 0 {
            Err(Error::ZeroDenominator)
        } else if self.numerator > self.denominator {
            Err(Error::FractionAboveOne)
        } else {
            Ok(())
        }
    }

    /// The fraction of `value`, rounded down.
    pub fn multiply(&self, value: u128) -> (part: u128)
        requires
            self.denominator != 0,
            self.numerator * value / (self.denominator as int) <= u128::MAX,
        ensures
            part == self.numerator * value / (self.denominator as int),
    {
        match mul_div_rem(self.numerator as u128, value, self.denominator as u128) {
            Some((q, _)) => q,
            None => 0,
        }
    }
}

} // verus!
