//! What the pool shows of itself.

use vstd::prelude::*;
use crate::account::{Account, AccountDetailsView};
use crate::contract::Contract;
use crate::errors::Error;
use crate::utils::{EpochHeight, ONE_NEAR};
use crate::validator::ValidatorInfo;
use crate::validator_pool::{lemma_index_of, lemma_sums_bound};

verus! {

/// The totals of the pool.
#[derive(Clone, Copy, Debug, PartialEq, Eq, Structural)]
pub struct Summary {
    /// The number of shares that exist.
    pub total_share_amount: u128,
    /// The amount that the participants have staked, rewards included.
    pub total_staked_near_amount: u128,
    /// The price of one whole share.
    pub ft_price: u128,
    /// The number of validators.
    pub validators_num: u32,
    /// What is left to stake on validators.
    pub stake_amount_to_settle: u128,
    /// What is left to unstake from validators.
    pub unstake_amount_to_settle: u128,
    /// The base stake amounts of all validators together.
    pub validators_total_base_stake_amount: u128,
    /// What was asked to be staked since the last settlement.
    pub epoch_requested_stake_amount: u128,
    /// What was asked to be unstaked since the last settlement.
    pub epoch_requested_unstake_amount: u128,
}

impl Contract {
    /// The price of one whole share: what `ONE_NEAR` shares are worth, rounded down.
    ///
    /// Refused when there are no shares, and when the price does not fit.
    pub fn ft_price(&self) -> (r: Result<u128, Error>)
        ensures
            r == self@.stake_for_shares(ONE_NEAR),
    {
        self.staked_amount_from_num_shares_rounded_down(ONE_NEAR)
    }

    /// The totals of the pool.
    ///
    /// Refused as the price of a share is.
    pub fn get_summary(&self) -> (r: Result<Summary, Error>)
        requires
            self.wf(),
        ensures
            self@.stake_for_shares(ONE_NEAR) matches Err(e) ==> r == Err::<Summary, Error>(e),
            self@.stake_for_shares(ONE_NEAR) matches Ok(price) ==> r == Ok::<Summary, Error>(
                Summary {
                    total_share_amount: self@.total_share_amount,
                    total_staked_near_amount: self@.total_staked_near_amount,
                    ft_price: price,
                    validators_num: self@.validator_pool.validators.len() as u32,
                    stake_amount_to_settle: self@.stake_amount_to_settle,
                    unstake_amount_to_settle: self@.unstake_amount_to_settle,
                    validators_total_base_stake_amount: self@.validator_pool.total_base_stake_amount,
                    epoch_requested_stake_amount: self@.epoch_requested_stake_amount,
                    epoch_requested_unstake_amount: self@.epoch_requested_unstake_amount,
                },
            ),
    {
        let ft_price = match self.ft_price() {
            Ok(p) => p,
            Err(e) => {
                return Err(e);
            },
        };
        Ok(
            Summary {
                total_share_amount: self.total_share_amount,
                total_staked_near_amount: self.total_staked_near_amount,
                ft_price,
                validators_num: self.validator_pool.count(),
                stake_amount_to_settle: self.stake_amount_to_settle,
                unstake_amount_to_settle: self.unstake_amount_to_settle,
                validators_total_base_stake_amount: self.validator_pool.total_base_stake_amount,
                epoch_requested_stake_amount: self.epoch_requested_stake_amount,
                epoch_requested_unstake_amount: self.epoch_requested_unstake_amount,
            },
        )
    }

    /// The position of the account `account_id`, which has `share_balance`
    /// shares, as it is at `current_epoch`.
    ///
    /// Refused when there are no shares, and when the worth of the account's
    /// shares does not fit.
    pub fn get_account_details(
        &self,
        account_id: String,
        account: &Account,
        share_balance: u128,
        current_epoch: EpochHeight,
    ) -> (r: Result<AccountDetailsView, Error>)
        ensures
            self@.stake_for_shares(share_balance) matches Err(e) ==> r == Err::<
                AccountDetailsView,
                Error,
            >(e),
            self@.stake_for_shares(share_balance) matches Ok(worth) ==> r == Ok::<
                AccountDetailsView,
                Error,
            >(
                AccountDetailsView {
                    account_id,
                    unstaked_balance: account.unstaked,
                    staked_balance: worth,
                    last_unstake_request_epoch_height: account.last_unstake_request_epoch_height,
                    can_withdraw: account.last_unstake_request_epoch_height <= current_epoch,
                },
            ),
    {
        let staked_balance = match self.staked_amount_from_num_shares_rounded_down(share_balance) {
            Ok(b) => b,
            Err(e) => {
                return Err(e);
            },
        };
        Ok(
            AccountDetailsView {
                account_id,
                unstaked_balance: account.unstaked,
                staked_balance,
                last_unstake_request_epoch_height: account.last_unstake_request_epoch_height,
                can_withdraw: account.last_unstake_request_epoch_height <= current_epoch,
            },
        )
    }

    /// Whether `account` can withdraw `amount`; see `assert_can_withdraw`.
    pub fn can_account_withdraw(&self, account: &Account, amount: u128, account_balance: u128) -> (r:
        Result<(), Error>)
        ensures
            r == self@.withdraw_check(*account, amount, account_balance),
    {
        self.assert_can_withdraw(account, amount, account_balance)
    }

    /// The weights of all validators together.
    pub fn get_total_weight(&self) -> (weight: u16)
        ensures
            weight == self@.validator_pool.total_weight,
    {
        self.validator_pool.total_weight
    }

    /// What the pool shows of the validator `validator_id` at `current_epoch`.
    ///
    /// Refused when there is no such validator.
    pub fn get_validator(&self, validator_id: &String, current_epoch: EpochHeight) -> (r: Result<
        ValidatorInfo,
        Error,
    >)
        requires
            self.wf(),
        ensures
            !self@.has_validator(validator_id@) ==> r is Err && r->Err_0
                == Error::ValidatorNotExist,
            self@.has_validator(validator_id@) ==> r is Ok,
            r matches Ok(info) ==> {
                let v = self@.validator(validator_id@);
                &&& info.account_id@ == validator_id@
                &&& info.weight == v.weight
                &&& info.base_stake_amount == v.base_stake_amount
                &&& info.target_stake_amount == self@.validator_pool.target_stake_amount(
                    self@.total_staked_near_amount,
                    v,
                )
                &&& info.staked_amount == v.staked_amount
                &&& info.unstaked_amount == v.unstaked_amount
                &&& info.pending_release == v.spec_pending_release(current_epoch)
                &&& info.draining == v.draining
            },
    {
        match self.validator_pool.get_validator(validator_id) {
            Some(v) => {
                proof {
                    lemma_index_of(self@.validator_pool, validator_id@);
                    lemma_sums_bound(
                        self@.validator_pool.validators,
                        self@.validator_pool.index_of(validator_id@),
                    );
                }
                Ok(v.get_info(&self.validator_pool, self.total_staked_near_amount, current_epoch))
            },
            None => Err(Error::ValidatorNotExist),
        }
    }

    /// What the pool shows at `current_epoch` of the validators from place
    /// `from_index` on (from the first one when it is `None`), of `limit` of
    /// them at most (of all that follow when it is `None`).
    pub fn get_validators(
        &self,
        from_index: Option<usize>,
        limit: Option<usize>,
        current_epoch: EpochHeight,
    ) -> (list: Vec<ValidatorInfo>)
        requires
            self.wf(),
        ensures
            list@.len() == self@.validator_pool.page_end(from_index, limit)
                - self@.validator_pool.page_start(from_index),
            forall|k: int|
                0 <= k < list@.len() ==> {
                    let v = self@.validator_pool.validators[self@.validator_pool.page_start(
                        from_index,
                    ) + k];
                    &&& (#[trigger] list@[k]).account_id@ == v.account_id@
                    &&& list@[k].weight == v.weight
                    &&& list@[k].base_stake_amount == v.base_stake_amount
                    &&& list@[k].target_stake_amount == self@.validator_pool.target_stake_amount(
                        self@.total_staked_near_amount,
                        v,
                    )
                    &&& list@[k].staked_amount == v.staked_amount
                    &&& list@[k].unstaked_amount == v.unstaked_amount
                    &&& list@[k].pending_release == v.spec_pending_release(current_epoch)
                    &&& list@[k].draining == v.draining
                },
    {
        let page = self.validator_pool.get_validators(from_index, limit);
        let ghost start = self@.validator_pool.page_start(from_index);
        let mut list: Vec<ValidatorInfo> = Vec::new();
        let mut i: usize = 0;
        while i < page.len()
            invariant
                self.wf(),
                i <= page.len(),
                0 <= start,
                start + page@.len() <= self@.validator_pool.validators.len(),
                forall|k: int|
                    0 <= k < page@.len() ==> page@[k] == self@.validator_pool.validators[start
                        + k],
                list@.len() == i,
                forall|k: int|
                    0 <= k < i ==> {
                        let v = self@.validator_pool.validators[start + k];
                        &&& (#[trigger] list@[k]).account_id@ == v.account_id@
                        &&& list@[k].weight == v.weight
                        &&& list@[k].base_stake_amount == v.base_stake_amount
                        &&& list@[k].target_stake_amount
                            == self@.validator_pool.target_stake_amount(
                            self@.total_staked_near_amount,
                            v,
                        )
                        &&& list@[k].staked_amount == v.staked_amount
                        &&& list@[k].unstaked_amount == v.unstaked_amount
                        &&& list@[k].pending_release == v.spec_pending_release(current_epoch)
                        &&& list@[k].draining == v.draining
                    },
            decreases page.len() - i,
        {
            proof {
                lemma_sums_bound(self@.validator_pool.validators, start + i);
            }
            let info = page[i].get_info(
                &self.validator_pool,
                self.total_staked_near_amount,
                current_epoch,
            );
            list.push(info);
            i += 1;
        }
        list
    }
}

} // verus!
