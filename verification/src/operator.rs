//! What the operators of the pool do to its validators: adding, removing and
//! reweighting them, reading their balances back, and draining one that is to leave.

use vstd::prelude::*;
use crate::contract::{Contract, ContractView};
use crate::errors::Error;
use crate::utils::{EpochHeight, ONE_NEAR};
use crate::validator::Validator;
use crate::validator_pool::{
    lemma_holds_index, lemma_saved_twice, PoolView, MAX_UPDATE_WEIGHTS_COUNT,
};

verus! {

impl ContractView {
    /// What `drain_unstake` returns for the validator `v` at `epoch`: the
    /// amount to unstake, which is all that it has staked, or why it is refused.
    pub open spec fn drain_unstake_check(v: Validator, epoch: EpochHeight) -> Result<u128, Error> {
        if v.weight != 0 {
            Err(Error::NonZeroWeight)
        } else if v.base_stake_amount != 0 {
            Err(Error::NonZeroBaseStakeAmount)
        } else if v.spec_pending_release(epoch) {
            Err(Error::ValidatorUnstakeWhenLocked)
        } else if v.unstaked_amount >= ONE_NEAR {
            Err(Error::BadUnstakedAmount)
        } else if v.draining {
            Err(Error::Draining)
        } else if v.executing {
            Err(Error::ValidatorAlreadyExecutingAction)
        } else {
            Ok(v.staked_amount)
        }
    }

    /// What `drain_withdraw` returns for the validator `v` at `epoch`: the
    /// amount to withdraw, which is all that it has unstaked, or why it is refused.
    pub open spec fn drain_withdraw_check(v: Validator, epoch: EpochHeight) -> Result<u128, Error> {
        if v.weight != 0 {
            Err(Error::NonZeroWeight)
        } else if v.base_stake_amount != 0 {
            Err(Error::NonZeroBaseStakeAmount)
        } else if v.staked_amount != 0 {
            Err(Error::NonZeroStakedAmount)
        } else if v.spec_pending_release(epoch) {
            Err(Error::ValidatorWithdrawWhenLocked)
        } else if !v.draining {
            Err(Error::NotInDraining)
        } else if v.executing {
            Err(Error::ValidatorAlreadyExecutingAction)
        } else {
            Ok(v.unstaked_amount)
        }
    }

    /// The state with another pool.
    pub open spec fn with_pool(self, pool: PoolView) -> ContractView {
        ContractView { validator_pool: pool, ..self }
    }
}

impl Contract {
    /// Adds the validator `validator_id` with the weight `weight`, once the
    /// whitelist has answered whether it is on it.
    ///
    /// Refused when it is not, and as the pool refuses a validator.
    pub fn is_whitelisted_callback(&mut self, validator_id: &String, weight: u16, whitelisted: bool) -> (r:
        Result<Validator, Error>)
        requires
            old(self).wf(),
        ensures
            final(self).wf(),
            !whitelisted ==> r == Err::<Validator, Error>(Error::ValidatorNotWhitelisted),
            whitelisted && old(self)@.has_validator(validator_id@) ==> r == Err::<Validator, Error>(
                Error::ValidatorAlreadyExist,
            ),
            whitelisted && !old(self)@.has_validator(validator_id@) && (old(self)@.validator_pool.total_weight + weight > u16::MAX || old(self)@.validator_pool.validators.len() >= u32::MAX) ==> r == Err::<Validator, Error>(
                Error::ArithmeticOverflow,
            ),
            whitelisted && !old(self)@.has_validator(validator_id@) && old(self)@.validator_pool.total_weight + weight <= u16::MAX && old(self)@.validator_pool.validators.len() < u32::MAX ==> r is Ok,
            r is Err ==> final(self)@ == old(self)@,
            r matches Ok(v) ==> {
                &&& v == (Validator {
                    account_id: v.account_id,
                    weight,
                    staked_amount: 0,
                    unstaked_amount: 0,
                    base_stake_amount: 0,
                    unstake_fired_epoch: 0,
                    last_unstake_fired_epoch: 0,
                    draining: false,
                    executing: false,
                })
                &&& v.account_id@ == validator_id@
                &&& final(self)@ == old(self)@.with_pool(
                    PoolView {
                        validators: old(self)@.validator_pool.validators.push(v),
                        total_weight: (old(self)@.validator_pool.total_weight + weight) as u16,
                        ..old(self)@.validator_pool
                    },
                )
            },
    {
        if !whitelisted {
            return Err(Error::ValidatorNotWhitelisted);
        }
        self.validator_pool.add_validator(validator_id, weight)
    }

    /// Whether the validators of `validator_ids` can be asked for with the
    /// weights of `weights`: there is one weight for each. The host then asks
    /// the whitelist for each validator and reports each answer to
    /// `is_whitelisted_callback`.
    pub fn add_validators(&self, validator_ids: &Vec<String>, weights: &Vec<u16>) -> (r: Result<
        (),
        Error,
    >)
        ensures
            validator_ids@.len() != weights@.len() ==> r == Err::<(), Error>(
                Error::BadValidatorList,
            ),
            validator_ids@.len() == weights@.len() ==> r is Ok,
    {
        if validator_ids.len() != weights.len() {
            Err(Error::BadValidatorList)
        } else {
            Ok(())
        }
    }

    /// Takes the validator `validator_id` out of the pool.
    ///
    /// Refused when there is no such validator, and while it holds anything.
    pub fn remove_validator(&mut self, validator_id: &String) -> (r: Result<Validator, Error>)
        requires
            old(self).wf(),
        ensures
            final(self).wf(),
            !old(self)@.has_validator(validator_id@) ==> r == Err::<Validator, Error>(
                Error::ValidatorNotExist,
            ),
            old(self)@.has_validator(validator_id@) ==> {
                let v = old(self)@.validator(validator_id@);
                if v.staked_amount == 0 && v.unstaked_amount == 0 {
                    r == Ok::<Validator, Error>(v)
                } else {
                    r == Err::<Validator, Error>(Error::ValidatorInUse)
                }
            },
            r is Err ==> final(self)@ == old(self)@,
            r matches Ok(v) ==> final(self)@ == old(self)@.with_pool(
                PoolView {
                    validators: old(self)@.validator_pool.validators.update(
                        old(self)@.validator_pool.index_of(validator_id@),
                        old(self)@.validator_pool.validators.last(),
                    ).drop_last(),
                    total_weight: (old(self)@.validator_pool.total_weight - v.weight) as u16,
                    total_base_stake_amount: (old(self)@.validator_pool.total_base_stake_amount
                        - v.base_stake_amount) as u128,
                },
            ),
    {
        self.validator_pool.remove_validator(validator_id)
    }

    /// Gives the validator `validator_id` the weight `weight`, and returns the
    /// weight that it had.
    ///
    /// Refused when there is no such validator, and when the total weight
    /// would no longer fit.
    pub fn update_weight(&mut self, validator_id: &String, weight: u16) -> (r: Result<u16, Error>)
        requires
            old(self).wf(),
        ensures
            final(self).wf(),
            old(self)@.validator_pool.weight_updated(validator_id@, weight) matches Ok(pool) ==> r
                == Ok::<u16, Error>(old(self)@.validator(validator_id@).weight) && final(self)@
                == old(self)@.with_pool(pool),
            old(self)@.validator_pool.weight_updated(validator_id@, weight) matches Err(e) ==> r
                == Err::<u16, Error>(e) && final(self)@ == old(self)@,
    {
        self.validator_pool.update_weight(validator_id, weight)
    }

    /// Gives the validators of `validator_ids` the weights of `weights`, one
    /// after the other, and returns the weights that they had. Either all of
    /// them are given their weight or none is.
    ///
    /// Refused when the two lists are not of the same length or are too long,
    /// and as the first validator that cannot be given its weight is.
    pub fn update_weights(&mut self, validator_ids: &Vec<String>, weights: &Vec<u16>) -> (r: Result<
        Vec<u16>,
        Error,
    >)
        requires
            old(self).wf(),
        ensures
            final(self).wf(),
            validator_ids@.len() != weights@.len() ==> r == Err::<Vec<u16>, Error>(
                Error::BadValidatorList,
            ),
            validator_ids@.len() == weights@.len() && validator_ids@.len()
                > MAX_UPDATE_WEIGHTS_COUNT ==> r == Err::<Vec<u16>, Error>(
                Error::TooManyWeightUpdates,
            ),
            validator_ids@.len() == weights@.len() && validator_ids@.len()
                <= MAX_UPDATE_WEIGHTS_COUNT ==> match old(self)@.validator_pool.weights_updated(
                validator_ids@,
                weights@,
                validator_ids@.len() as int,
            ) {
                Err(e) => r == Err::<Vec<u16>, Error>(e),
                Ok(pool) => {
                    &&& r matches Ok(old_weights)
                    &&& final(self)@ == old(self)@.with_pool(pool)
                    &&& old_weights@.len() == validator_ids@.len()
                    &&& forall|k: int|
                        0 <= k < old_weights@.len() ==> old_weights@[k] == (#[trigger] old(self)@.validator_pool.weights_updated(
                            validator_ids@,
                            weights@,
                            k,
                        ))->Ok_0.validators[old(self)@.validator_pool.weights_updated(
                            validator_ids@,
                            weights@,
                            k,
                        )->Ok_0.index_of(validator_ids@[k]@)].weight
                },
            },
            r is Err ==> final(self)@ == old(self)@,
    {
        if validator_ids.len() != weights.len() {
            return Err(Error::BadValidatorList);
        }
        if validator_ids.len() > MAX_UPDATE_WEIGHTS_COUNT {
            return Err(Error::TooManyWeightUpdates);
        }
        let backup = self.validator_pool.duplicate();
        let ghost before = self@;
        let ghost ids = validator_ids@;
        let ghost ws = weights@;
        let mut old_weights: Vec<u16> = Vec::new();
        let mut i: usize = 0;
        while i < validator_ids.len()
            invariant
                i <= validator_ids.len(),
                validator_ids.len() == weights.len(),
                ids == validator_ids@,
                ws == weights@,
                validator_ids.len() <= MAX_UPDATE_WEIGHTS_COUNT,
                backup@ == before.validator_pool,
                before == old(self)@,
                before.wf(),
                self.wf(),
                self@ == before.with_pool(self@.validator_pool),
                before.validator_pool.weights_updated(ids, ws, i as int) == Ok::<PoolView, Error>(
                    self@.validator_pool,
                ),
                old_weights@.len() == i,
                forall|k: int|
                    0 <= k < i ==> old_weights@[k] == (#[trigger] before.validator_pool.weights_updated(
                        ids,
                        ws,
                        k,
                    ))->Ok_0.validators[before.validator_pool.weights_updated(
                        ids,
                        ws,
                        k,
                    )->Ok_0.index_of(ids[k]@)].weight,
            decreases validator_ids.len() - i,
        {
            let ghost cur = self@.validator_pool;
            assert(before.validator_pool.weights_updated(ids, ws, i + 1) == cur.weight_updated(
                ids[i as int]@,
                ws[i as int],
            ));
            match self.validator_pool.update_weight(&validator_ids[i], weights[i]) {
                Ok(old_weight) => {
                    old_weights.push(old_weight);
                },
                Err(e) => {
                    proof {
                        lemma_weights_updated_fails(
                            before.validator_pool,
                            ids,
                            ws,
                            i + 1,
                            ids.len() as int,
                        );
                    }
                    self.validator_pool = backup;
                    return Err(e);
                },
            }
            i += 1;
        }
        Ok(old_weights)
    }

    /// Gives the validators of `validator_ids` the base stake amounts of
    /// `amounts`, one after the other. Either all of them are given their
    /// amount or none is.
    ///
    /// Refused when the two lists are not of the same length, and as the
    /// first validator that cannot be given its amount is.
    pub fn update_base_stake_amounts(&mut self, validator_ids: &Vec<String>, amounts: &Vec<u128>) -> (r:
        Result<(), Error>)
        requires
            old(self).wf(),
        ensures
            final(self).wf(),
            validator_ids@.len() != amounts@.len() ==> r == Err::<(), Error>(
                Error::BadValidatorList,
            ),
            validator_ids@.len() == amounts@.len() ==> match old(self)@.validator_pool.bases_updated(
                validator_ids@,
                amounts@,
                validator_ids@.len() as int,
            ) {
                Err(e) => r == Err::<(), Error>(e),
                Ok(pool) => r is Ok && final(self)@ == old(self)@.with_pool(pool),
            },
            r is Err ==> final(self)@ == old(self)@,
    {
        if validator_ids.len() != amounts.len() {
            return Err(Error::BadValidatorList);
        }
        let backup = self.validator_pool.duplicate();
        let ghost before = self@;
        let ghost ids = validator_ids@;
        let ghost ams = amounts@;
        let mut i: usize = 0;
        while i < validator_ids.len()
            invariant
                i <= validator_ids.len(),
                validator_ids.len() == amounts.len(),
                ids == validator_ids@,
                ams == amounts@,
                backup@ == before.validator_pool,
                before == old(self)@,
                before.wf(),
                self.wf(),
                self@ == before.with_pool(self@.validator_pool),
                before.validator_pool.bases_updated(ids, ams, i as int) == Ok::<PoolView, Error>(
                    self@.validator_pool,
                ),
            decreases validator_ids.len() - i,
        {
            let ghost cur = self@.validator_pool;
            assert(before.validator_pool.bases_updated(ids, ams, i + 1) == cur.base_updated(
                ids[i as int]@,
                ams[i as int],
            ));
            match self.validator_pool.update_base_stake_amount(&validator_ids[i], amounts[i]) {
                Ok(()) => {},
                Err(e) => {
                    proof {
                        lemma_bases_updated_fails(
                            before.validator_pool,
                            ids,
                            ams,
                            i + 1,
                            ids.len() as int,
                        );
                    }
                    self.validator_pool = backup;
                    return Err(e);
                },
            }
            i += 1;
        }
        Ok(())
    }

    /// Starts reading back the balances of the validator `validator_id`:
    /// takes its guard. The host is to read the validator's balances and to
    /// report them to `validator_get_account_callback`.
    ///
    /// Refused when there is no such validator, and while it is executing.
    pub fn sync_balance_from_validator(&mut self, validator_id: &String) -> (r: Result<(), Error>)
        requires
            old(self).wf(),
        ensures
            final(self).wf(),
            !old(self)@.has_validator(validator_id@) ==> r == Err::<(), Error>(
                Error::ValidatorNotExist,
            ),
            old(self)@.has_validator(validator_id@) && old(self)@.validator(
                validator_id@,
            ).executing ==> r == Err::<(), Error>(Error::ValidatorAlreadyExecutingAction),
            old(self)@.has_validator(validator_id@) && !old(self)@.validator(
                validator_id@,
            ).executing ==> r is Ok,
            r is Err ==> final(self)@ == old(self)@,
            r is Ok ==> final(self)@ == old(self)@.with_saved(
                Validator { executing: true, ..old(self)@.validator(validator_id@) },
            ),
    {
        let mut validator = match self.validator_pool.get_validator(validator_id) {
            Some(v) => v,
            None => {
                return Err(Error::ValidatorNotExist);
            },
        };
        proof {
            crate::epoch_actions::lemma_lookup_after_save(self@.validator_pool, validator_id@);
        }
        validator.sync_account_balance(&mut self.validator_pool, false)
    }

    /// Starts draining the validator `validator_id` at `current_epoch`: takes
    /// its guard and opens its release period. The host is to unstake the
    /// amount that is returned, which is all that the validator has staked,
    /// and to report the outcome to `validator_drain_unstaked_callback`.
    ///
    /// Refused when there is no such validator; when it has a weight or a
    /// base stake amount; while it is in its release period; when a whole
    /// NEAR or more is unstaked on it; while it is being drained already; and
    /// while it is executing.
    pub fn drain_unstake(&mut self, validator_id: &String, current_epoch: EpochHeight) -> (r: Result<
        u128,
        Error,
    >)
        requires
            old(self).wf(),
        ensures
            final(self).wf(),
            !old(self)@.has_validator(validator_id@) ==> r == Err::<u128, Error>(
                Error::ValidatorNotExist,
            ),
            old(self)@.has_validator(validator_id@) ==> r == ContractView::drain_unstake_check(
                old(self)@.validator(validator_id@),
                current_epoch,
            ),
            r is Err ==> final(self)@ == old(self)@,
            r is Ok ==> final(self)@ == old(self)@.with_saved(
                Validator {
                    executing: true,
                    last_unstake_fired_epoch: old(self)@.validator(
                        validator_id@,
                    ).unstake_fired_epoch,
                    unstake_fired_epoch: current_epoch,
                    ..old(self)@.validator(validator_id@)
                },
            ),
    {
        let mut validator = match self.validator_pool.get_validator(validator_id) {
            Some(v) => v,
            None => {
                return Err(Error::ValidatorNotExist);
            },
        };
        proof {
            crate::epoch_actions::lemma_lookup_after_save(self@.validator_pool, validator_id@);
        }
        if validator.weight != 0 {
            return Err(Error::NonZeroWeight);
        }
        if validator.base_stake_amount != 0 {
            return Err(Error::NonZeroBaseStakeAmount);
        }
        if validator.pending_release(current_epoch) {
            return Err(Error::ValidatorUnstakeWhenLocked);
        }
        if validator.unstaked_amount >= ONE_NEAR {
            return Err(Error::BadUnstakedAmount);
        }
        if validator.draining {
            return Err(Error::Draining);
        }
        let unstake_amount = validator.staked_amount;
        match validator.unstake(&mut self.validator_pool, unstake_amount, current_epoch) {
            Ok(()) => Ok(unstake_amount),
            Err(e) => Err(e),
        }
    }

    /// Starts the withdrawal from the drained validator `validator_id` at
    /// `current_epoch`: takes its guard and takes the amount that is
    /// returned, which is all that is unstaked on it, out of its unstaked
    /// amount. The host is to withdraw the amount and to report the outcome
    /// to `validator_drain_withdraw_callback`.
    ///
    /// Refused when there is no such validator; when it has a weight, a base
    /// stake amount or a staked amount; while it is in its release period;
    /// when it is not being drained; and while it is executing.
    pub fn drain_withdraw(&mut self, validator_id: &String, current_epoch: EpochHeight) -> (r:
        Result<u128, Error>)
        requires
            old(self).wf(),
        ensures
            final(self).wf(),
            !old(self)@.has_validator(validator_id@) ==> r == Err::<u128, Error>(
                Error::ValidatorNotExist,
            ),
            old(self)@.has_validator(validator_id@) ==> r == ContractView::drain_withdraw_check(
                old(self)@.validator(validator_id@),
                current_epoch,
            ),
            r is Err ==> final(self)@ == old(self)@,
            r is Ok ==> final(self)@ == old(self)@.with_saved(
                Validator {
                    executing: true,
                    unstaked_amount: 0,
                    ..old(self)@.validator(validator_id@)
                },
            ),
    {
        let mut validator = match self.validator_pool.get_validator(validator_id) {
            Some(v) => v,
            None => {
                return Err(Error::ValidatorNotExist);
            },
        };
        proof {
            crate::epoch_actions::lemma_lookup_after_save(self@.validator_pool, validator_id@);
        }
        if validator.weight != 0 {
            return Err(Error::NonZeroWeight);
        }
        if validator.base_stake_amount != 0 {
            return Err(Error::NonZeroBaseStakeAmount);
        }
        if validator.staked_amount != 0 {
            return Err(Error::NonZeroStakedAmount);
        }
        if validator.pending_release(current_epoch) {
            return Err(Error::ValidatorWithdrawWhenLocked);
        }
        if !validator.draining {
            return Err(Error::NotInDraining);
        }
        let amount = validator.unstaked_amount;
        match validator.withdraw(&mut self.validator_pool, amount, current_epoch) {
            Ok(()) => Ok(amount),
            Err(e) => Err(e),
        }
    }

    /// Books the outcome of the unstake of `amount` that drains the validator `validator_id`.
    ///
    /// When the unstake went through, the amount moves from the validator's
    /// staked amount to its unstaked amount, the validator is marked as being
    /// drained, and `Ok(true)` says that the host is to read the validator's
    /// balances next and to report them to `validator_get_account_callback`;
    /// the guard stays taken until then. When it failed, the guard is given
    /// back, the release period goes back to the one before, and the result
    /// is `Ok(false)`.
    ///
    /// Refused when there is no such validator, when an amount would no
    /// longer fit, and, for an unstake that went through, when the validator's
    /// guard is not taken.
    pub fn validator_drain_unstaked_callback(
        &mut self,
        validator_id: &String,
        amount: u128,
        success: bool,
    ) -> (r: Result<bool, Error>)
        requires
            old(self).wf(),
        ensures
            final(self).wf(),
            r == Ok::<bool, Error>(false) ==> !final(self)@.validator(validator_id@).executing,
            r == Ok::<bool, Error>(true) ==> final(self)@.validator(validator_id@).executing
                && final(self)@.validator(validator_id@).draining,
            !old(self)@.has_validator(validator_id@) ==> r == Err::<bool, Error>(
                Error::ValidatorNotExist,
            ),
            r is Err ==> final(self)@ == old(self)@,
            old(self)@.has_validator(validator_id@) && success ==> {
                let v = old(self)@.validator(validator_id@);
                if amount > v.staked_amount || v.unstaked_amount + amount > u128::MAX {
                    r == Err::<bool, Error>(Error::ArithmeticOverflow)
                } else if !v.executing {
                    r == Err::<bool, Error>(Error::ValidatorSyncBalanceNotExpected)
                } else {
                    r == Ok::<bool, Error>(true) && final(self)@ == old(self)@.with_saved(
                        Validator {
                            staked_amount: (v.staked_amount - amount) as u128,
                            unstaked_amount: (v.unstaked_amount + amount) as u128,
                            draining: true,
                            ..v
                        },
                    )
                }
            },
            old(self)@.has_validator(validator_id@) && !success ==> r == Ok::<bool, Error>(false)
                && final(self)@ == old(self)@.with_saved(
                Validator {
                    executing: false,
                    unstake_fired_epoch: old(self)@.validator(
                        validator_id@,
                    ).last_unstake_fired_epoch,
                    ..old(self)@.validator(validator_id@)
                },
            ),
    {
        let mut validator = match self.validator_pool.get_validator(validator_id) {
            Some(v) => v,
            None => {
                return Err(Error::ValidatorNotExist);
            },
        };
        proof {
            crate::epoch_actions::lemma_lookup_after_save(self@.validator_pool, validator_id@);
        }
        if success {
            if amount > validator.staked_amount || validator.unstaked_amount > u128::MAX - amount {
                return Err(Error::ArithmeticOverflow);
            }
            if !validator.executing {
                return Err(Error::ValidatorSyncBalanceNotExpected);
            }
            let ghost pool = self@.validator_pool;
            proof {
                lemma_holds_index(pool, validator);
            }
            match validator.on_unstake_success(&mut self.validator_pool, amount) {
                Ok(()) => {},
                Err(e) => {
                    return Err(e);
                },
            }
            let ghost first = validator;
            validator.set_draining(&mut self.validator_pool, true);
            proof {
                lemma_saved_twice(pool, first, validator);
            }
            match validator.sync_account_balance(&mut self.validator_pool, true) {
                Ok(()) => Ok(true),
                Err(e) => Err(e),
            }
        } else {
            validator.on_unstake_failed(&mut self.validator_pool);
            Ok(false)
        }
    }

    /// Books the outcome of the withdrawal of `amount` from the drained
    /// validator `validator_id`, and gives the validator's guard back.
    ///
    /// When the withdrawal went through, the validator is no longer being
    /// drained, and the amount is added to what is to be staked in this
    /// epoch, to be staked elsewhere. When it failed, the amount goes back to
    /// the validator's unstaked amount.
    ///
    /// Refused when there is no such validator, and when an amount would no
    /// longer fit.
    pub fn validator_drain_withdraw_callback(
        &mut self,
        validator_id: &String,
        amount: u128,
        success: bool,
    ) -> (r: Result<(), Error>)
        requires
            old(self).wf(),
        ensures
            final(self).wf(),
            r is Ok ==> !final(self)@.validator(validator_id@).executing,
            !old(self)@.has_validator(validator_id@) ==> r == Err::<(), Error>(
                Error::ValidatorNotExist,
            ),
            r is Err ==> final(self)@ == old(self)@,
            old(self)@.has_validator(validator_id@) && success ==> {
                let v = old(self)@.validator(validator_id@);
                if old(self)@.epoch_requested_stake_amount + amount > u128::MAX {
                    r == Err::<(), Error>(Error::ArithmeticOverflow)
                } else {
                    r is Ok && final(self)@ == (ContractView {
                        epoch_requested_stake_amount: (old(self)@.epoch_requested_stake_amount
                            + amount) as u128,
                        ..old(self)@.with_saved(
                            Validator { executing: false, draining: false, ..v },
                        )
                    })
                }
            },
            old(self)@.has_validator(validator_id@) && !success ==> {
                let v = old(self)@.validator(validator_id@);
                if v.unstaked_amount + amount > u128::MAX {
                    r == Err::<(), Error>(Error::ArithmeticOverflow)
                } else {
                    r is Ok && final(self)@ == old(self)@.with_saved(
                        Validator {
                            executing: false,
                            unstaked_amount: (v.unstaked_amount + amount) as u128,
                            ..v
                        },
                    )
                }
            },
    {
        let mut validator = match self.validator_pool.get_validator(validator_id) {
            Some(v) => v,
            None => {
                return Err(Error::ValidatorNotExist);
            },
        };
        proof {
            crate::epoch_actions::lemma_lookup_after_save(self@.validator_pool, validator_id@);
        }
        if success {
            let requested = match self.epoch_requested_stake_amount.checked_add(amount) {
                Some(t) => t,
                None => {
                    return Err(Error::ArithmeticOverflow);
                },
            };
            let ghost pool = self@.validator_pool;
            proof {
                lemma_holds_index(pool, validator);
            }
            validator.on_withdraw_success(&mut self.validator_pool);
            let ghost first = validator;
            validator.set_draining(&mut self.validator_pool, false);
            proof {
                lemma_saved_twice(pool, first, validator);
            }
            self.epoch_requested_stake_amount = requested;
            Ok(())
        } else {
            validator.on_withdraw_failed(&mut self.validator_pool, amount)
        }
    }
}

/// Once a validator cannot be given its weight, the whole list cannot.
proof fn lemma_weights_updated_fails(pool: PoolView, ids: Seq<String>, weights: Seq<u16>, k: int, n: int)
    requires
        0 <= k <= n,
        pool.weights_updated(ids, weights, k) is Err,
    ensures
        pool.weights_updated(ids, weights, n) == pool.weights_updated(ids, weights, k),
    decreases n - k,
{
    if k < n {
        lemma_weights_updated_fails(pool, ids, weights, k, n - 1);
    }
}

/// Once a validator cannot be given its base stake amount, the whole list cannot.
proof fn lemma_bases_updated_fails(pool: PoolView, ids: Seq<String>, amounts: Seq<u128>, k: int, n: int)
    requires
        0 <= k <= n,
        pool.bases_updated(ids, amounts, k) is Err,
    ensures
        pool.bases_updated(ids, amounts, n) == pool.bases_updated(ids, amounts, k),
    decreases n - k,
{
    if k < n {
        lemma_bases_updated_fails(pool, ids, amounts, k, n - 1);
    }
}

} // verus!
