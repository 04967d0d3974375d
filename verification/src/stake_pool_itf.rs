//! The pool as the staking pools of the network present themselves: the
//! balances of an account, and the operations that take all there is.

use vstd::prelude::*;
use crate::account::{Account, HumanReadableAccount};
use crate::contract::{sum_bps, Contract, ContractView, ShareBalance};
use crate::errors::Error;
use crate::internal::sum_of_bps;
use crate::utils::{EpochHeight, RewardFeeFraction, FULL_BASIS_POINTS};

verus! {

impl Contract {
    /// The account `account_id`, which has `share_balance` shares, as it is at `current_epoch`.
    ///
    /// Refused when there are no shares, and when the worth of the account's
    /// shares does not fit.
    pub fn get_account(
        &self,
        account_id: String,
        account: &Account,
        share_balance: ShareBalance,
        current_epoch: EpochHeight,
    ) -> (r: Result<HumanReadableAccount, Error>)
        ensures
            self@.stake_for_shares(share_balance) matches Err(e) ==> r == Err::<
                HumanReadableAccount,
                Error,
            >(e),
            self@.stake_for_shares(share_balance) matches Ok(worth) ==> r == Ok::<
                HumanReadableAccount,
                Error,
            >(
                HumanReadableAccount {
                    account_id,
                    unstaked_balance: account.unstaked,
                    staked_balance: worth,
                    can_withdraw: account.last_unstake_request_epoch_height <= current_epoch,
                },
            ),
    {
        let staked_balance = match self.staked_amount_from_num_shares_rounded_down(share_balance) {
            Ok(b) => b,
            Err(e) => {
                return Err(e);
            },
        };
        Ok(
            HumanReadableAccount {
                account_id,
                unstaked_balance: account.unstaked,
                staked_balance,
                can_withdraw: account.last_unstake_request_epoch_height <= current_epoch,
            },
        )
    }

    /// The unstaked balance of `account`.
    pub fn get_account_unstaked_balance(&self, account: &Account) -> (balance: u128)
        ensures
            balance == account.unstaked,
    {
        account.unstaked
    }

    /// What the `share_balance` shares of an account are worth.
    pub fn get_account_staked_balance(&self, share_balance: ShareBalance) -> (r: Result<u128, Error>)
        ensures
            r == self@.stake_for_shares(share_balance),
    {
        self.staked_amount_from_num_shares_rounded_down(share_balance)
    }

    /// The unstaked balance of `account` and what its `share_balance` shares are worth, together.
    ///
    /// Refused when there are no shares, and when an amount does not fit.
    pub fn get_account_total_balance(&self, account: &Account, share_balance: ShareBalance) -> (r:
        Result<u128, Error>)
        ensures
            self@.stake_for_shares(share_balance) matches Err(e) ==> r == Err::<u128, Error>(e),
            self@.stake_for_shares(share_balance) matches Ok(worth) ==> r == (if account.unstaked
                + worth > u128::MAX {
                Err::<u128, Error>(Error::ArithmeticOverflow)
            } else {
                Ok::<u128, Error>((account.unstaked + worth) as u128)
            }),
    {
        let staked_balance = match self.staked_amount_from_num_shares_rounded_down(share_balance) {
            Ok(b) => b,
            Err(e) => {
                return Err(e);
            },
        };
        match account.unstaked.checked_add(staked_balance) {
            Some(total) => Ok(total),
            None => Err(Error::ArithmeticOverflow),
        }
    }

    /// Whether the unstaked balance of `account` can be withdrawn at `current_epoch`.
    pub fn is_account_unstaked_balance_available(
        &self,
        account: &Account,
        current_epoch: EpochHeight,
    ) -> (available: bool)
        ensures
            available == (account.last_unstake_request_epoch_height <= current_epoch),
    {
        account.last_unstake_request_epoch_height <= current_epoch
    }

    /// The amount that the participants have staked, rewards included.
    pub fn get_total_staked_balance(&self) -> (total: u128)
        ensures
            total == self@.total_staked_near_amount,
    {
        self.total_staked_near_amount
    }

    /// The part of the rewards that goes to the beneficiaries.
    pub fn get_reward_fee_fraction(&self) -> (fraction: RewardFeeFraction)
        requires
            self.wf(),
        ensures
            fraction.numerator == sum_bps(self@.beneficiaries),
            fraction.denominator == FULL_BASIS_POINTS,
            fraction.valid(),
    {
        RewardFeeFraction {
            numerator: sum_of_bps(&self.beneficiaries),
            denominator: FULL_BASIS_POINTS,
        }
    }

    /// Adds what is left of `attached_deposit`, once `storage_used` is paid
    /// for the account's storage, to the unstaked balance of `account`.
    ///
    /// Refused when nothing is left, and when the balance would no longer fit.
    pub fn deposit(&self, account: &mut Account, attached_deposit: u128, storage_used: u128) -> (r:
        Result<(), Error>)
        ensures
            attached_deposit < storage_used ==> r == Err::<(), Error>(Error::ArithmeticOverflow),
            attached_deposit == storage_used ==> r == Err::<(), Error>(
                Error::NonPositiveDepositAmount,
            ),
            attached_deposit > storage_used && old(account).unstaked + attached_deposit
                - storage_used > u128::MAX ==> r == Err::<(), Error>(Error::ArithmeticOverflow),
            attached_deposit > storage_used && old(account).unstaked + attached_deposit
                - storage_used <= u128::MAX ==> r is Ok,
            r is Err ==> *final(account) == *old(account),
            r is Ok ==> *final(account) == (Account {
                unstaked: (old(account).unstaked + attached_deposit - storage_used) as u128,
                ..*old(account)
            }),
    {
        if attached_deposit < storage_used {
            return Err(Error::ArithmeticOverflow);
        }
        self.internal_deposit(account, attached_deposit - storage_used)
    }

    /// Deposits what is left of `attached_deposit` once `storage_used` is
    /// paid, and stakes it at once: returns the shares to mint for the account.
    ///
    /// Refused as the deposit and the stake are; nothing changes then.
    pub fn deposit_and_stake(
        &mut self,
        account: &mut Account,
        attached_deposit: u128,
        storage_used: u128,
    ) -> (r: Result<ShareBalance, Error>)
        ensures
            attached_deposit < storage_used ==> r == Err::<u128, Error>(Error::ArithmeticOverflow),
            attached_deposit == storage_used ==> r == Err::<u128, Error>(
                Error::NonPositiveDepositAmount,
            ),
            attached_deposit > storage_used && old(account).unstaked + attached_deposit
                - storage_used > u128::MAX ==> r == Err::<u128, Error>(Error::ArithmeticOverflow),
            attached_deposit > storage_used && old(account).unstaked + attached_deposit
                - storage_used <= u128::MAX ==> r == old(self)@.stake_result(
                Account {
                    unstaked: (old(account).unstaked + attached_deposit - storage_used) as u128,
                    ..*old(account)
                },
                (attached_deposit - storage_used) as u128,
            ),
            r is Err ==> final(self)@ == old(self)@ && *final(account) == *old(account),
            r matches Ok(shares) ==> {
                let amount = (attached_deposit - storage_used) as u128;
                &&& *final(account) == *old(account)
                &&& final(self)@ == (ContractView {
                    total_share_amount: (old(self)@.total_share_amount + shares) as u128,
                    total_staked_near_amount: (old(self)@.total_staked_near_amount
                        + amount) as u128,
                    epoch_requested_stake_amount: (old(self)@.epoch_requested_stake_amount
                        + amount) as u128,
                    ..old(self)@
                })
            },
            old(self)@.price_at_least_one() ==> final(self)@.price_at_least_one(),
    {
        let before = *account;
        match self.deposit(account, attached_deposit, storage_used) {
            Ok(()) => {},
            Err(e) => {
                return Err(e);
            },
        }
        match self.internal_stake(account, attached_deposit - storage_used) {
            Ok(shares) => Ok(shares),
            Err(e) => {
                *account = before;
                Err(e)
            },
        }
    }

    /// Takes the whole unstaked balance of `account` out, to be paid out by the host.
    ///
    /// Refused as `assert_can_withdraw` says.
    pub fn withdraw_all(&self, account: &mut Account, account_balance: u128) -> (r: Result<
        u128,
        Error,
    >)
        ensures
            self@.withdraw_check(*old(account), old(account).unstaked, account_balance)
                matches Err(e) ==> r == Err::<u128, Error>(e) && *final(account) == *old(account),
            self@.withdraw_check(*old(account), old(account).unstaked, account_balance)
                is Ok ==> r == Ok::<u128, Error>(old(account).unstaked) && *final(account) == (
            Account { unstaked: 0, ..*old(account) }),
    {
        let amount = account.unstaked;
        match self.internal_withdraw(account, amount, account_balance) {
            Ok(()) => Ok(amount),
            Err(e) => Err(e),
        }
    }

    /// Takes `amount` out of the unstaked balance of `account`, to be paid out by the host.
    ///
    /// Refused as `assert_can_withdraw` says.
    pub fn withdraw(&self, account: &mut Account, amount: u128, account_balance: u128) -> (r:
        Result<(), Error>)
        ensures
            r == self@.withdraw_check(*old(account), amount, account_balance),
            r is Err ==> *final(account) == *old(account),
            r is Ok ==> *final(account) == (Account {
                unstaked: (old(account).unstaked - amount) as u128,
                ..*old(account)
            }),
    {
        self.internal_withdraw(account, amount, account_balance)
    }

    /// Stakes `amount` out of the unstaked balance of `account`: returns the
    /// shares to mint for it.
    ///
    /// Refused as `internal_stake` is.
    pub fn stake(&mut self, account: &mut Account, amount: u128) -> (r: Result<ShareBalance, Error>)
        ensures
            r == old(self)@.stake_result(*old(account), amount),
            r is Err ==> final(self)@ == old(self)@ && *final(account) == *old(account),
            r matches Ok(shares) ==> {
                &&& *final(account) == (Account {
                    unstaked: (old(account).unstaked - amount) as u128,
                    ..*old(account)
                })
                &&& final(self)@ == (ContractView {
                    total_share_amount: (old(self)@.total_share_amount + shares) as u128,
                    total_staked_near_amount: (old(self)@.total_staked_near_amount
                        + amount) as u128,
                    epoch_requested_stake_amount: (old(self)@.epoch_requested_stake_amount
                        + amount) as u128,
                    ..old(self)@
                })
            },
            old(self)@.price_at_least_one() ==> final(self)@.price_at_least_one(),
    {
        self.internal_stake(account, amount)
    }

    /// Unstakes `amount` for `account`, which has `share_balance` shares, at
    /// `current_epoch`: returns the shares to burn for it.
    ///
    /// Refused as `internal_unstake` is.
    pub fn unstake(
        &mut self,
        account: &mut Account,
        share_balance: ShareBalance,
        amount: u128,
        current_epoch: EpochHeight,
    ) -> (r: Result<ShareBalance, Error>)
        ensures
            r == old(self)@.unstake_result(*old(account), share_balance, amount, current_epoch),
            r is Err ==> final(self)@ == old(self)@ && *final(account) == *old(account),
            r matches Ok(shares) ==> {
                &&& *final(account) == (Account {
                    unstaked: (old(account).unstaked + amount) as u128,
                    last_unstake_request_epoch_height: old(self)@.unlock_epoch(
                        amount,
                        current_epoch,
                    ) as u64,
                })
                &&& final(self)@ == (ContractView {
                    total_share_amount: (old(self)@.total_share_amount - shares) as u128,
                    total_staked_near_amount: (old(self)@.total_staked_near_amount
                        - amount) as u128,
                    epoch_requested_unstake_amount: (old(self)@.epoch_requested_unstake_amount
                        + amount) as u128,
                    ..old(self)@
                })
            },
            old(self)@.price_at_least_one() ==> final(self)@.price_at_least_one(),
    {
        self.internal_unstake(account, share_balance, amount, current_epoch)
    }

    /// Stakes the whole unstaked balance of `account`: returns the shares to mint for it.
    ///
    /// Refused as `internal_stake` is.
    pub fn stake_all(&mut self, account: &mut Account) -> (r: Result<ShareBalance, Error>)
        ensures
            r == old(self)@.stake_result(*old(account), old(account).unstaked),
            r is Err ==> final(self)@ == old(self)@ && *final(account) == *old(account),
            r matches Ok(shares) ==> {
                &&& *final(account) == (Account { unstaked: 0, ..*old(account) })
                &&& final(self)@ == (ContractView {
                    total_share_amount: (old(self)@.total_share_amount + shares) as u128,
                    total_staked_near_amount: (old(self)@.total_staked_near_amount + old(account).unstaked) as u128,
                    epoch_requested_stake_amount: (old(self)@.epoch_requested_stake_amount + old(account).unstaked) as u128,
                    ..old(self)@
                })
            },
            old(self)@.price_at_least_one() ==> final(self)@.price_at_least_one(),
    {
        let amount = account.unstaked;
        self.internal_stake(account, amount)
    }

    /// Unstakes all that the `share_balance` shares of `account` are worth,
    /// rounded down, at `current_epoch`: returns the amount and the shares to burn.
    ///
    /// Refused when there are no shares, when the worth of the shares does
    /// not fit, and as `internal_unstake` is.
    pub fn unstake_all(
        &mut self,
        account: &mut Account,
        share_balance: ShareBalance,
        current_epoch: EpochHeight,
    ) -> (r: Result<(u128, ShareBalance), Error>)
        ensures
            old(self)@.stake_for_shares(share_balance) matches Err(e) ==> r == Err::<
                (u128, ShareBalance),
                Error,
            >(e),
            old(self)@.stake_for_shares(share_balance) matches Ok(amount) ==> match old(self)@.unstake_result(*old(account), share_balance, amount, current_epoch) {
                Err(e) => r == Err::<(u128, ShareBalance), Error>(e),
                Ok(shares) => {
                    &&& r == Ok::<(u128, ShareBalance), Error>((amount, shares))
                    &&& shares <= share_balance
                    &&& *final(account) == (Account {
                        unstaked: (old(account).unstaked + amount) as u128,
                        last_unstake_request_epoch_height: old(self)@.unlock_epoch(
                            amount,
                            current_epoch,
                        ) as u64,
                    })
                    &&& final(self)@ == (ContractView {
                        total_share_amount: (old(self)@.total_share_amount - shares) as u128,
                        total_staked_near_amount: (old(self)@.total_staked_near_amount
                            - amount) as u128,
                        epoch_requested_unstake_amount: (old(self)@.epoch_requested_unstake_amount + amount) as u128,
                        ..old(self)@
                    })
                },
            },
            r is Err ==> final(self)@ == old(self)@ && *final(account) == *old(account),
            old(self)@.price_at_least_one() ==> final(self)@.price_at_least_one(),
    {
        let amount = match self.staked_amount_from_num_shares_rounded_down(share_balance) {
            Ok(a) => a,
            Err(e) => {
                return Err(e);
            },
        };
        match self.internal_unstake(account, share_balance, amount, current_epoch) {
            Ok(shares) => Ok((amount, shares)),
            Err(e) => Err(e),
        }
    }
}

} // verus!
