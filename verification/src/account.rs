//! The position of one participant, and the four operations on it: deposit,
//! withdraw, stake and unstake.

use vstd::prelude::*;
use crate::contract::{
    lemma_shares_at_most_amount, shares_rounded_down, shares_rounded_up, stake_rounded_down,
    Contract, ContractView, ShareBalance,
};
use crate::errors::Error;
use crate::math::lemma_ceil_from_floor;
use crate::utils::{EpochHeight, CONTRACT_MIN_RESERVE_BALANCE, NUM_EPOCHS_TO_UNLOCK};
use vstd::arithmetic::div_mod::{lemma_div_is_ordered, lemma_div_multiples_vanish, lemma_fundamental_div_mod};

verus! {

/// What one participant holds in the pool besides shares.
#[derive(Clone, Copy, Debug, PartialEq, Eq, Structural)]
pub struct Account {
    /// The unstaked balance: what can be staked or withdrawn.
    pub unstaked: u128,
    /// The first epoch in which the unstaked balance can be withdrawn.
    pub last_unstake_request_epoch_height: EpochHeight,
}

impl Default for Account {
    fn default() -> (account: Self)
        ensures
            account == (Account { unstaked: 0, last_unstake_request_epoch_height: 0 }),
    {
        Account { unstaked: 0, last_unstake_request_epoch_height: 0 }
    }
}

/// An account as the staking pools of the network show it.
#[derive(Debug)]
pub struct HumanReadableAccount {
    pub account_id: String,
    /// The unstaked balance that can be withdrawn or staked.
    pub unstaked_balance: u128,
    /// What the account's shares are worth.
    pub staked_balance: u128,
    /// Whether the unstaked balance can be withdrawn now.
    pub can_withdraw: bool,
}

/// An account in full.
#[derive(Debug)]
pub struct AccountDetailsView {
    pub account_id: String,
    /// The unstaked balance that can be withdrawn or staked.
    pub unstaked_balance: u128,
    /// What the account's shares are worth.
    pub staked_balance: u128,
    /// The first epoch in which the unstaked balance can be withdrawn.
    pub last_unstake_request_epoch_height: EpochHeight,
    /// Whether the unstaked balance can be withdrawn now.
    pub can_withdraw: bool,
}

impl ContractView {
    /// What `assert_can_withdraw` returns.
    pub open spec fn withdraw_check(self, account: Account, amount: u128, account_balance: u128) -> Result<
        (),
        Error,
    > {
        if amount == 0 {
            Err(Error::NonPositiveWithdrawalAmount)
        } else if account.unstaked < amount {
            Err(Error::NoEnoughUnstakedBalanceToWithdraw)
        } else if account.last_unstake_request_epoch_height > self.last_settlement_epoch {
            Err(Error::UnstakedBalanceNotAvailable)
        } else if account_balance - CONTRACT_MIN_RESERVE_BALANCE < amount {
            Err(Error::NoEnoughContractBalance)
        } else {
            Ok(())
        }
    }

    /// What `internal_stake` returns: the shares that the stake mints, or why it is refused.
    pub open spec fn stake_result(self, account: Account, amount: u128) -> Result<u128, Error> {
        if amount == 0 {
            Err(Error::NonPositiveStakingAmount)
        } else {
            match self.shares_for_stake(amount) {
                Err(e) => Err(e),
                Ok(shares) => if shares == 0 {
                    Err(Error::NonPositiveCalculatedStakingShare)
                } else if account.unstaked < amount {
                    Err(Error::NoEnoughUnstakedBalance)
                } else if self.total_share_amount + shares > u128::MAX
                    || self.total_staked_near_amount + amount > u128::MAX
                    || self.epoch_requested_stake_amount + amount > u128::MAX {
                    Err(Error::ArithmeticOverflow)
                } else {
                    Ok(shares)
                },
            }
        }
    }

    /// The first epoch in which an amount unstaked at `epoch` can be
    /// withdrawn: `epoch` and the number of epochs that the pool asks for, and
    /// one more when this epoch's settlement has been made already.
    pub open spec fn unlock_epoch(self, amount: u128, epoch: EpochHeight) -> int {
        epoch + self.validator_pool.num_epoch_to_unstake(amount, epoch) + if self.last_settlement_epoch
            == epoch || self.last_settlement_initiated_epoch == epoch {
            1int
        } else {
            0int
        }
    }

    /// What `internal_unstake` returns: the shares that the unstake burns, or why it is refused.
    pub open spec fn unstake_result(
        self,
        account: Account,
        share_balance: u128,
        amount: u128,
        epoch: EpochHeight,
    ) -> Result<u128, Error> {
        if amount == 0 {
            Err(Error::NonPositiveUnstakingAmount)
        } else if self.total_staked_near_amount == 0 {
            Err(Error::ContractNoStakedBalance)
        } else {
            match self.shares_for_unstake(amount) {
                Err(e) => Err(e),
                Ok(shares) => if shares == 0 {
                    Err(Error::NonPositiveCalculatedUnstakingShare)
                } else if shares > share_balance {
                    Err(Error::NoEnoughShares)
                } else if shares > self.total_share_amount || account.unstaked + amount > u128::MAX
                    || self.unlock_epoch(amount, epoch) > u64::MAX || amount
                    > self.total_staked_near_amount || self.epoch_requested_unstake_amount + amount
                    > u128::MAX {
                    Err(Error::ArithmeticOverflow)
                } else {
                    Ok(shares)
                },
            }
        }
    }
}

/// A stake adds no more shares than units, and an unstake burns no fewer
/// shares than it should: after either, a share is still worth one unit at least.
pub proof fn lemma_price_stays_at_least_one(total_shares: u128, total_staked: u128, amount: u128)
    requires
        total_shares <= total_staked,
        total_staked > 0,
    ensures
        total_shares + shares_rounded_down(total_shares, total_staked, amount) <= total_staked
            + amount,
        amount <= total_staked ==> total_shares - shares_rounded_up(
            total_shares,
            total_staked,
            amount,
        ) <= total_staked - amount,
{
    lemma_shares_at_most_amount(total_shares, total_staked, amount);
    if amount <= total_staked {
        let t = total_shares as int;
        let s = total_staked as int;
        let a = amount as int;
        let x = t * a;
        let c = shares_rounded_up(total_shares, total_staked, amount);
        assert(0 <= x) by (nonlinear_arith)
            requires
                x == t * a,
                0 <= t,
                0 <= a,
        ;
        lemma_ceil_from_floor(x, s);
        lemma_fundamental_div_mod(x, s);
        // c * s >= t * a
        assert(c * s >= x) by (nonlinear_arith)
            requires
                x == s * (x / s) + x % s,
                0 <= x % s < s,
                c == x / s + (if x % s == 0 { 0int } else { 1int }),
        ;
        assert(t - c <= s - a) by (nonlinear_arith)
            requires
                c * s >= x,
                x == t * a,
                0 <= t <= s,
                0 <= a <= s,
                0 < s,
        ;
    }
}

/// Staking `amount` and unstaking what the minted shares are worth right after gives back
/// `amount` at most, and burns no more shares than were minted.
pub proof fn lemma_stake_unstake_round_trip(total_shares: u128, total_staked: u128, amount: u128)
    requires
        total_staked > 0,
        total_shares + shares_rounded_down(total_shares, total_staked, amount) <= u128::MAX,
        total_staked + amount <= u128::MAX,
        shares_rounded_down(total_shares, total_staked, amount) > 0,
    ensures
        ({
            let minted = shares_rounded_down(total_shares, total_staked, amount) as u128;
            let shares_after = (total_shares + minted) as u128;
            let staked_after = (total_staked + amount) as u128;
            let worth = stake_rounded_down(shares_after, staked_after, minted);
            &&& 0 <= worth <= amount
            &&& shares_rounded_up(shares_after, staked_after, worth as u128) <= minted
        }),
{
    let t = total_shares as int;
    let s = total_staked as int;
    let a = amount as int;
    let m = shares_rounded_down(total_shares, total_staked, amount);
    let t2 = t + m;
    let s2 = s + a;
    assert(0 <= t * a) by (nonlinear_arith)
        requires
            0 <= t,
            0 <= a,
    ;
    lemma_fundamental_div_mod(t * a, s);
    // m * s <= t * a
    assert(m * s <= t * a) by (nonlinear_arith)
        requires
            t * a == s * m + (t * a) % s,
            0 <= (t * a) % s,
    ;
    assert(s2 * m <= a * t2) by (nonlinear_arith)
        requires
            m * s <= t * a,
            s2 == s + a,
            t2 == t + m,
    ;
    assert(0 <= s2 * m) by (nonlinear_arith)
        requires
            0 <= s2,
            0 <= m,
    ;
    lemma_div_is_ordered(s2 * m, a * t2, t2);
    lemma_div_is_ordered(0, s2 * m, t2);
    lemma_div_multiples_vanish(a, t2);
    assert(a * t2 == t2 * a) by (nonlinear_arith);
    let w = (s2 * m) / t2;
    assert(w == stake_rounded_down((total_shares + m) as u128, (total_staked + amount) as u128, m as u128));
    // w * t2 <= s2 * m, so rounding up w * t2 / s2 gives m at most
    lemma_fundamental_div_mod(s2 * m, t2);
    assert(t2 * w <= s2 * m) by (nonlinear_arith)
        requires
            s2 * m == t2 * w + (s2 * m) % t2,
            0 <= (s2 * m) % t2,
    ;
    assert(t2 * w + s2 - 1 <= m * s2 + (s2 - 1)) by (nonlinear_arith)
        requires
            t2 * w <= s2 * m,
    ;
    lemma_div_is_ordered(t2 * w + s2 - 1, m * s2 + (s2 - 1), s2);
    vstd::arithmetic::div_mod::lemma_fundamental_div_mod_converse(m * s2 + (s2 - 1), s2, m, s2 - 1);
}

impl Contract {
    /// Adds `amount` to the unstaked balance of `account`.
    ///
    /// Refused for no amount, and when the balance would no longer fit.
    pub fn internal_deposit(&self, account: &mut Account, amount: u128) -> (r: Result<(), Error>)
        ensures
            amount == 0 ==> r == Err::<(), Error>(Error::NonPositiveDepositAmount),
            amount > 0 && old(account).unstaked + amount > u128::MAX ==> r == Err::<(), Error>(
                Error::ArithmeticOverflow,
            ),
            amount > 0 && old(account).unstaked + amount <= u128::MAX ==> r is Ok,
            r is Err ==> *final(account) == *old(account),
            r is Ok ==> *final(account) == (Account {
                unstaked: (old(account).unstaked + amount) as u128,
                ..*old(account)
            }),
    {
        if amount == 0 {
            return Err(Error::NonPositiveDepositAmount);
        }
        match account.unstaked.checked_add(amount) {
            Some(unstaked) => {
                account.unstaked = unstaked;
                Ok(())
            },
            None => Err(Error::ArithmeticOverflow),
        }
    }

    /// Whether `account` can withdraw `amount` when the pool's own balance is
    /// `account_balance`: the amount is positive and in the unstaked balance,
    /// the last settlement is not before the epoch from which the balance can
    /// be withdrawn, and the pool's balance covers the amount above its reserve.
    pub fn assert_can_withdraw(&self, account: &Account, amount: u128, account_balance: u128) -> (r:
        Result<(), Error>)
        ensures
            r == self@.withdraw_check(*account, amount, account_balance),
    {
        if amount == 0 {
            return Err(Error::NonPositiveWithdrawalAmount);
        }
        if account.unstaked < amount {
            return Err(Error::NoEnoughUnstakedBalanceToWithdraw);
        }
        if account.last_unstake_request_epoch_height > self.last_settlement_epoch {
            return Err(Error::UnstakedBalanceNotAvailable);
        }
        let available = if account_balance >= CONTRACT_MIN_RESERVE_BALANCE {
            account_balance - CONTRACT_MIN_RESERVE_BALANCE
        } else {
            0
        };
        if available < amount {
            return Err(Error::NoEnoughContractBalance);
        }
        Ok(())
    }

    /// Takes `amount` out of the unstaked balance of `account`, to be paid out by the host.
    ///
    /// Refused as `assert_can_withdraw` says.
    pub fn internal_withdraw(&self, account: &mut Account, amount: u128, account_balance: u128) -> (r:
        Result<(), Error>)
        ensures
            r == self@.withdraw_check(*old(account), amount, account_balance),
            r is Err ==> *final(account) == *old(account),
            r is Ok ==> *final(account) == (Account {
                unstaked: (old(account).unstaked - amount) as u128,
                ..*old(account)
            }),
    {
        match self.assert_can_withdraw(account, amount, account_balance) {
            Ok(()) => {},
            Err(e) => {
                return Err(e);
            },
        }
        account.unstaked = account.unstaked - amount;
        Ok(())
    }

    /// Stakes `amount` out of the unstaked balance of `account`: returns the
    /// shares to mint for it, at the price before the stake and rounded down,
    /// and adds the amount to the staked amount and to what is to be staked in
    /// this epoch.
    pub fn internal_stake(&mut self, account: &mut Account, amount: u128) -> (r: Result<
        ShareBalance,
        Error,
    >)
        ensures
            r == old(self)@.stake_result(*old(account), amount),
            r is Err ==> final(self)@ == old(self)@ && *final(account) == *old(account),
            r matches Ok(shares) ==> {
                &&& shares > 0
                &&& shares == shares_rounded_down(
                    old(self)@.total_share_amount,
                    old(self)@.total_staked_near_amount,
                    amount,
                )
                &&& *final(account) == (Account {
                    unstaked: (old(account).unstaked - amount) as u128,
                    ..*old(account)
                })
                &&& final(self)@ == (ContractView {
                    total_share_amount: (old(self)@.total_share_amount + shares) as u128,
                    total_staked_near_amount: (old(self)@.total_staked_near_amount
                        + amount) as u128,
                    epoch_requested_stake_amount: (old(self)@.epoch_requested_stake_amount
                        + amount) as u128,
                    ..old(self)@
                })
            },
            old(self)@.price_at_least_one() ==> final(self)@.price_at_least_one(),
    {
        if amount == 0 {
            return Err(Error::NonPositiveStakingAmount);
        }
        let num_shares = match self.num_shares_from_staked_amount_rounded_down(amount) {
            Ok(n) => n,
            Err(e) => {
                return Err(e);
            },
        };
        if num_shares == 0 {
            return Err(Error::NonPositiveCalculatedStakingShare);
        }
        if account.unstaked < amount {
            return Err(Error::NoEnoughUnstakedBalance);
        }
        let total_shares = match self.total_share_amount.checked_add(num_shares) {
            Some(t) => t,
            None => {
                return Err(Error::ArithmeticOverflow);
            },
        };
        let total_staked = match self.total_staked_near_amount.checked_add(amount) {
            Some(t) => t,
            None => {
                return Err(Error::ArithmeticOverflow);
            },
        };
        let requested = match self.epoch_requested_stake_amount.checked_add(amount) {
            Some(t) => t,
            None => {
                return Err(Error::ArithmeticOverflow);
            },
        };
        proof {
            if self@.price_at_least_one() {
                lemma_price_stays_at_least_one(
                    self.total_share_amount,
                    self.total_staked_near_amount,
                    amount,
                );
            }
        }
        account.unstaked = account.unstaked - amount;
        self.total_share_amount = total_shares;
        self.total_staked_near_amount = total_staked;
        self.epoch_requested_stake_amount = requested;
        Ok(num_shares)
    }

    /// Unstakes `amount` for `account`, which has `share_balance` shares, at
    /// `current_epoch`: returns the shares to burn for it, at the price before
    /// the unstake and rounded up, moves the amount from the staked amount to
    /// the unstaked balance of the account and to what is to be unstaked in
    /// this epoch, and sets the epoch from which the balance can be withdrawn.
    pub fn internal_unstake(
        &mut self,
        account: &mut Account,
        share_balance: ShareBalance,
        amount: u128,
        current_epoch: EpochHeight,
    ) -> (r: Result<ShareBalance, Error>)
        ensures
            r == old(self)@.unstake_result(*old(account), share_balance, amount, current_epoch),
            r is Err ==> final(self)@ == old(self)@ && *final(account) == *old(account),
            r matches Ok(shares) ==> {
                &&& 0 < shares <= share_balance
                &&& shares == shares_rounded_up(
                    old(self)@.total_share_amount,
                    old(self)@.total_staked_near_amount,
                    amount,
                )
                &&& *final(account) == (Account {
                    unstaked: (old(account).unstaked + amount) as u128,
                    last_unstake_request_epoch_height: old(self)@.unlock_epoch(
                        amount,
                        current_epoch,
                    ) as u64,
                })
                &&& final(account).last_unstake_request_epoch_height >= current_epoch
                    + NUM_EPOCHS_TO_UNLOCK
                &&& final(self)@ == (ContractView {
                    total_share_amount: (old(self)@.total_share_amount - shares) as u128,
                    total_staked_near_amount: (old(self)@.total_staked_near_amount
                        - amount) as u128,
                    epoch_requested_unstake_amount: (old(self)@.epoch_requested_unstake_amount
                        + amount) as u128,
                    ..old(self)@
                })
            },
            old(self)@.price_at_least_one() ==> final(self)@.price_at_least_one(),
    {
        if amount == 0 {
            return Err(Error::NonPositiveUnstakingAmount);
        }
        if self.total_staked_near_amount == 0 {
            return Err(Error::ContractNoStakedBalance);
        }
        let num_shares = match self.num_shares_from_staked_amount_rounded_up(amount) {
            Ok(n) => n,
            Err(e) => {
                return Err(e);
            },
        };
        if num_shares == 0 {
            return Err(Error::NonPositiveCalculatedUnstakingShare);
        }
        if num_shares > share_balance {
            return Err(Error::NoEnoughShares);
        }
        let total_shares = match self.total_share_amount.checked_sub(num_shares) {
            Some(t) => t,
            None => {
                return Err(Error::ArithmeticOverflow);
            },
        };
        let unstaked = match account.unstaked.checked_add(amount) {
            Some(t) => t,
            None => {
                return Err(Error::ArithmeticOverflow);
            },
        };
        let wait = self.validator_pool.get_num_epoch_to_unstake(amount, current_epoch);
        let late: u64 = if self.last_settlement_epoch == current_epoch
            || self.last_settlement_initiated_epoch == current_epoch {
            1
        } else {
            0
        };
        let unlock = match current_epoch.checked_add(wait + late) {
            Some(t) => t,
            None => {
                return Err(Error::ArithmeticOverflow);
            },
        };
        let total_staked = match self.total_staked_near_amount.checked_sub(amount) {
            Some(t) => t,
            None => {
                return Err(Error::ArithmeticOverflow);
            },
        };
        let requested = match self.epoch_requested_unstake_amount.checked_add(amount) {
            Some(t) => t,
            None => {
                return Err(Error::ArithmeticOverflow);
            },
        };
        proof {
            if self@.price_at_least_one() {
                lemma_price_stays_at_least_one(
                    self.total_share_amount,
                    self.total_staked_near_amount,
                    amount,
                );
            }
        }
        account.unstaked = unstaked;
        account.last_unstake_request_epoch_height = unlock;
        self.total_share_amount = total_shares;
        self.total_staked_near_amount = total_staked;
        self.epoch_requested_unstake_amount = requested;
        Ok(num_shares)
    }
}

impl Contract {
    /// Whether the record of `account` can be closed along with its
    /// registration: not by force, and only with nothing unstaked left on it.
    pub fn storage_unregister(&self, account: &Account, force: Option<bool>) -> (r: Result<
        (),
        Error,
    >)
        ensures
            force == Some(true) ==> r == Err::<(), Error>(Error::ForceUnregister),
            force != Some(true) && account.unstaked != 0 ==> r == Err::<(), Error>(
                Error::UnregisterPositiveUnstaked,
            ),
            force != Some(true) && account.unstaked == 0 ==> r is Ok,
    {
        match force {
            Some(true) => {
                return Err(Error::ForceUnregister);
            },
            _ => {},
        }
        if account.unstaked != 0 {
            return Err(Error::UnregisterPositiveUnstaked);
        }
        Ok(())
    }
}

} // verus!
