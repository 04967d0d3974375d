//! The settlement of each epoch: the demand to stake and to unstake is netted
//! once per epoch, and then carried out on one validator at a time. Each step
//! comes in two halves: a trigger, which picks the validator and takes its
//! guard, and a callback, which books what the validator answered.

use vstd::prelude::*;
use crate::contract::{Contract, ContractView};
use crate::errors::Error;
use crate::internal::{distribution, reward_shares, seq_total, total_of};
use crate::utils::{abs_diff_eq, EpochHeight, CONTRACT_MIN_RESERVE_BALANCE, ONE_NEAR};
use crate::validator::{CandidateValidator, Validator};
use crate::allocation::stake_amount;
use crate::validator_pool::{lemma_holds_index, lemma_index_of_is, lemma_saved_lookup, PoolView};

verus! {

/// A stake of less than this is not carried out.
pub const MIN_AMOUNT_TO_PERFORM_STAKE: u128 = ONE_NEAR;

/// The largest difference between a balance that a validator reports and the
/// balance booked for it at which the reported one is taken over.
pub const MAX_SYNC_BALANCE_DIFF: u128 = 100;

/// The fields of the state that a settlement changes.
#[derive(Clone, Copy)]
struct Settlement {
    epoch_requested_stake_amount: u128,
    epoch_requested_unstake_amount: u128,
    stake_amount_to_settle: u128,
    unstake_amount_to_settle: u128,
    last_settlement_epoch: EpochHeight,
}

impl ContractView {
    /// Whether the epoch `epoch` has not been settled yet.
    pub open spec fn needs_cleanup(self, epoch: EpochHeight) -> bool {
        self.last_settlement_epoch != epoch
    }

    /// Whether the demand of this epoch can be added to what is left to settle.
    pub open spec fn cleanup_fits(self) -> bool {
        &&& self.stake_amount_to_settle + self.epoch_requested_stake_amount <= u128::MAX
        &&& self.unstake_amount_to_settle + self.epoch_requested_unstake_amount <= u128::MAX
    }

    /// The state after the cleanup of epoch `epoch`: nothing changes when the
    /// epoch is settled already; otherwise the demand of the epoch is added to
    /// what is left to settle, and of the two amounts to settle only the
    /// difference is left, on the side of the larger one.
    pub open spec fn cleaned(self, epoch: EpochHeight) -> ContractView {
        if !self.needs_cleanup(epoch) {
            self
        } else {
            let stake = self.stake_amount_to_settle + self.epoch_requested_stake_amount;
            let unstake = self.unstake_amount_to_settle + self.epoch_requested_unstake_amount;
            ContractView {
                last_settlement_epoch: epoch,
                epoch_requested_stake_amount: 0,
                epoch_requested_unstake_amount: 0,
                stake_amount_to_settle: if stake > unstake {
                    (stake - unstake) as u128
                } else {
                    0
                },
                unstake_amount_to_settle: if stake > unstake {
                    0
                } else {
                    (unstake - stake) as u128
                },
                ..self
            }
        }
    }

    /// Whether the cleanup of epoch `epoch` goes through.
    pub open spec fn can_clean(self, epoch: EpochHeight) -> bool {
        !self.needs_cleanup(epoch) || self.cleanup_fits()
    }

    /// The state with the validator `v` written to the pool.
    pub open spec fn with_saved(self, v: Validator) -> ContractView {
        ContractView { validator_pool: self.validator_pool.saved(v), ..self }
    }

    /// What `epoch_stake` returns once the epoch is cleaned: the place of the
    /// validator to stake to and the amount, nothing when there is nothing to
    /// do, or why the stake is refused.
    pub open spec fn stake_step(self, account_balance: u128) -> Result<Option<(int, u128)>, Error> {
        if self.stake_amount_to_settle == 0 {
            Ok(None)
        } else {
            match self.validator_pool.stake_candidate(self.total_staked_near_amount) {
                None => Ok(None),
                Some(i) => {
                    let amount = stake_amount(
                        self.stake_amount_to_settle,
                        self.validator_pool.stake_delta(self.total_staked_near_amount, i),
                    ) as u128;
                    if amount < MIN_AMOUNT_TO_PERFORM_STAKE {
                        Ok(None)
                    } else if account_balance < amount + CONTRACT_MIN_RESERVE_BALANCE {
                        Err(Error::MinReserve)
                    } else if self.validator_pool.validators[i].executing {
                        Err(Error::ValidatorAlreadyExecutingAction)
                    } else {
                        Ok(Some((i, amount)))
                    }
                },
            }
        }
    }

    /// What `epoch_unstake` returns once the epoch is cleaned at `epoch`: the place of
    /// the validator to unstake from and the amount, nothing when there is
    /// nothing to do, or why the unstake is refused.
    pub open spec fn unstake_step(self, epoch: EpochHeight) -> Result<Option<(int, u128)>, Error> {
        if self.unstake_amount_to_settle == 0 {
            Ok(None)
        } else {
            match self.validator_pool.unstake_candidate(
                self.total_staked_near_amount,
                epoch,
                self.unstake_amount_to_settle,
            ) {
                None => Ok(None),
                Some((i, amount)) => if self.validator_pool.validators[i].executing {
                    Err(Error::ValidatorAlreadyExecutingAction)
                } else {
                    Ok(Some((i, amount as u128)))
                },
            }
        }
    }
}

/// The cleanup of an epoch is done once: a second cleanup of the same epoch
/// changes nothing, whatever was asked for in between being left for the next epoch.
pub proof fn lemma_cleanup_idempotent(state: ContractView, epoch: EpochHeight)
    ensures
        !state.cleaned(epoch).needs_cleanup(epoch),
        state.cleaned(epoch).can_clean(epoch),
        state.cleaned(epoch).cleaned(epoch) == state.cleaned(epoch),
{
}

/// After the cleanup of an epoch that was not settled yet, nothing is left to
/// settle on one of the two sides.
pub proof fn lemma_cleanup_nets(state: ContractView, epoch: EpochHeight)
    requires
        state.needs_cleanup(epoch),
        state.cleanup_fits(),
    ensures
        state.cleaned(epoch).stake_amount_to_settle == 0 || state.cleaned(
            epoch,
        ).unstake_amount_to_settle == 0,
        state.cleaned(epoch).stake_amount_to_settle - state.cleaned(epoch).unstake_amount_to_settle
            == (state.stake_amount_to_settle + state.epoch_requested_stake_amount) - (
        state.unstake_amount_to_settle + state.epoch_requested_unstake_amount),
{
}

impl Contract {
    fn settlement(&self) -> (s: Settlement)
        ensures
            s.epoch_requested_stake_amount == self@.epoch_requested_stake_amount,
            s.epoch_requested_unstake_amount == self@.epoch_requested_unstake_amount,
            s.stake_amount_to_settle == self@.stake_amount_to_settle,
            s.unstake_amount_to_settle == self@.unstake_amount_to_settle,
            s.last_settlement_epoch == self@.last_settlement_epoch,
    {
        Settlement {
            epoch_requested_stake_amount: self.epoch_requested_stake_amount,
            epoch_requested_unstake_amount: self.epoch_requested_unstake_amount,
            stake_amount_to_settle: self.stake_amount_to_settle,
            unstake_amount_to_settle: self.unstake_amount_to_settle,
            last_settlement_epoch: self.last_settlement_epoch,
        }
    }

    fn set_settlement(&mut self, s: Settlement)
        ensures
            final(self)@ == (ContractView {
                epoch_requested_stake_amount: s.epoch_requested_stake_amount,
                epoch_requested_unstake_amount: s.epoch_requested_unstake_amount,
                stake_amount_to_settle: s.stake_amount_to_settle,
                unstake_amount_to_settle: s.unstake_amount_to_settle,
                last_settlement_epoch: s.last_settlement_epoch,
                ..old(self)@
            }),
    {
        self.epoch_requested_stake_amount = s.epoch_requested_stake_amount;
        self.epoch_requested_unstake_amount = s.epoch_requested_unstake_amount;
        self.stake_amount_to_settle = s.stake_amount_to_settle;
        self.unstake_amount_to_settle = s.unstake_amount_to_settle;
        self.last_settlement_epoch = s.last_settlement_epoch;
    }

    /// Settles the demand of the epoch `current_epoch`, once: what was asked
    /// to be staked and unstaked is added to what is left to settle, and
    /// stake and unstake are set off against each other.
    ///
    /// Refused when the amounts to settle would no longer fit.
    pub fn epoch_cleanup(&mut self, current_epoch: EpochHeight) -> (r: Result<(), Error>)
        ensures
            r is Ok <==> old(self)@.can_clean(current_epoch),
            r is Err ==> r == Err::<(), Error>(Error::ArithmeticOverflow) && final(self)@ == old(self)@,
            r is Ok ==> final(self)@ == old(self)@.cleaned(current_epoch),
    {
        if self.last_settlement_epoch == current_epoch {
            return Ok(());
        }
        let stake = match self.stake_amount_to_settle.checked_add(
            self.epoch_requested_stake_amount,
        ) {
            Some(s) => s,
            None => {
                return Err(Error::ArithmeticOverflow);
            },
        };
        let unstake = match self.unstake_amount_to_settle.checked_add(
            self.epoch_requested_unstake_amount,
        ) {
            Some(s) => s,
            None => {
                return Err(Error::ArithmeticOverflow);
            },
        };
        self.last_settlement_epoch = current_epoch;
        self.epoch_requested_stake_amount = 0;
        self.epoch_requested_unstake_amount = 0;
        if stake > unstake {
            self.stake_amount_to_settle = stake - unstake;
            self.unstake_amount_to_settle = 0;
        } else {
            self.unstake_amount_to_settle = unstake - stake;
            self.stake_amount_to_settle = 0;
        }
        Ok(())
    }

    /// Picks the validator to stake to and the amount to stake to it, once the
    /// epoch `current_epoch` is cleaned, and takes the validator's guard.
    ///
    /// `Ok(None)` says that there is nothing to stake now: nothing is left to
    /// settle, no validator is under its target, or the amount is too small.
    /// `Ok(Some(c))` says that the host is to stake `c.amount` to
    /// `c.validator` and to report the outcome to `validator_staked_callback`;
    /// the amount is taken out of what is left to settle at once.
    ///
    /// Refused, with nothing changed, when the cleanup is, when
    /// `account_balance`, the pool's own balance, does not cover the amount
    /// above the reserve, and while the validator is executing.
    pub fn epoch_stake(&mut self, current_epoch: EpochHeight, account_balance: u128) -> (r: Result<
        Option<CandidateValidator>,
        Error,
    >)
        requires
            old(self).wf(),
        ensures
            final(self).wf(),
            !old(self)@.can_clean(current_epoch) ==> r == Err::<Option<CandidateValidator>, Error>(
                Error::ArithmeticOverflow,
            ),
            r is Err ==> final(self)@ == old(self)@,
            old(self)@.can_clean(current_epoch) ==> {
                let cleaned = old(self)@.cleaned(current_epoch);
                match cleaned.stake_step(account_balance) {
                    Err(e) => r == Err::<Option<CandidateValidator>, Error>(e),
                    Ok(None) => r == Ok::<Option<CandidateValidator>, Error>(None) && final(self)@
                        == cleaned,
                    Ok(Some((i, amount))) => {
                        &&& r matches Ok(Some(c))
                        &&& c.amount == amount
                        &&& MIN_AMOUNT_TO_PERFORM_STAKE <= amount <= cleaned.stake_amount_to_settle
                        &&& c.validator == (Validator {
                            executing: true,
                            ..cleaned.validator_pool.validators[i]
                        })
                        &&& final(self)@ == cleaned.after_stake_trigger(i, amount)
                        &&& final(self)@.validator_pool.validators
                            == cleaned.validator_pool.validators.update(i, c.validator)
                    },
                }
            },
    {
        let before = self.settlement();
        match self.epoch_cleanup(current_epoch) {
            Ok(()) => {},
            Err(e) => {
                return Err(e);
            },
        }
        if self.stake_amount_to_settle == 0 {
            return Ok(None);
        }
        let candidate = self.validator_pool.get_candidate_to_stake(
            self.stake_amount_to_settle,
            self.total_staked_near_amount,
        );
        let mut candidate = match candidate {
            Some(c) => c,
            None => {
                return Ok(None);
            },
        };
        let amount_to_stake = candidate.amount;
        if amount_to_stake < MIN_AMOUNT_TO_PERFORM_STAKE {
            return Ok(None);
        }
        if account_balance < CONTRACT_MIN_RESERVE_BALANCE || account_balance
            - CONTRACT_MIN_RESERVE_BALANCE < amount_to_stake {
            self.set_settlement(before);
            return Err(Error::MinReserve);
        }
        proof {
            let i = self@.validator_pool.stake_candidate(self@.total_staked_near_amount)->0;
            assert(self@.validator_pool.holds(candidate.validator));
            lemma_holds_index(self@.validator_pool, candidate.validator);
            crate::validator_pool::lemma_index_of_is(
                self@.validator_pool,
                candidate.validator.account_id@,
                i,
            );
            crate::validator_pool::lemma_saved_keeps_wf(
                self@.validator_pool,
                Validator { executing: true, ..candidate.validator },
                self@.validator_pool.total_base_stake_amount,
            );
        }
        match candidate.validator.deposit_and_stake(&mut self.validator_pool, amount_to_stake) {
            Ok(()) => {},
            Err(e) => {
                self.set_settlement(before);
                return Err(e);
            },
        }
        self.stake_amount_to_settle = self.stake_amount_to_settle - amount_to_stake;
        Ok(Some(candidate))
    }

    /// Picks the validator to unstake from and the amount to unstake from it,
    /// once the epoch `current_epoch` is cleaned, takes the validator's guard
    /// and opens its release period.
    ///
    /// `Ok(None)` says that there is nothing to unstake now: nothing is left
    /// to settle, or no validator can be unstaked from. `Ok(Some(c))` says
    /// that the host is to unstake `c.amount` from `c.validator` and to report
    /// the outcome to `validator_unstaked_callback`; the amount is taken out
    /// of what is left to settle at once.
    ///
    /// Refused, with nothing changed, when the cleanup is, and while the
    /// validator is executing.
    pub fn epoch_unstake(&mut self, current_epoch: EpochHeight) -> (r: Result<
        Option<CandidateValidator>,
        Error,
    >)
        requires
            old(self).wf(),
        ensures
            final(self).wf(),
            !old(self)@.can_clean(current_epoch) ==> r == Err::<Option<CandidateValidator>, Error>(
                Error::ArithmeticOverflow,
            ),
            r is Err ==> final(self)@ == old(self)@,
            old(self)@.can_clean(current_epoch) ==> {
                let cleaned = old(self)@.cleaned(current_epoch);
                match cleaned.unstake_step(current_epoch) {
                    Err(e) => r == Err::<Option<CandidateValidator>, Error>(e),
                    Ok(None) => r == Ok::<Option<CandidateValidator>, Error>(None) && final(self)@
                        == cleaned,
                    Ok(Some((i, amount))) => {
                        &&& r matches Ok(Some(c))
                        &&& c.amount == amount
                        &&& 0 < amount <= cleaned.unstake_amount_to_settle
                        &&& !cleaned.validator_pool.validators[i].spec_pending_release(
                            current_epoch,
                        )
                        &&& c.validator == (Validator {
                            executing: true,
                            last_unstake_fired_epoch: cleaned.validator_pool.validators[i].unstake_fired_epoch,
                            unstake_fired_epoch: current_epoch,
                            ..cleaned.validator_pool.validators[i]
                        })
                        &&& final(self)@ == cleaned.after_unstake_trigger(i, amount, current_epoch)
                        &&& final(self)@.validator_pool.validators
                            == cleaned.validator_pool.validators.update(i, c.validator)
                    },
                }
            },
    {
        let before = self.settlement();
        match self.epoch_cleanup(current_epoch) {
            Ok(()) => {},
            Err(e) => {
                return Err(e);
            },
        }
        if self.unstake_amount_to_settle == 0 {
            return Ok(None);
        }
        let candidate = self.validator_pool.get_candidate_to_unstake_v2(
            self.unstake_amount_to_settle,
            self.total_staked_near_amount,
            current_epoch,
        );
        let mut candidate = match candidate {
            Some(c) => c,
            None => {
                return Ok(None);
            },
        };
        let amount_to_unstake = candidate.amount;
        proof {
            let (i, a) = self@.validator_pool.unstake_candidate(
                self@.total_staked_near_amount,
                current_epoch,
                self@.unstake_amount_to_settle,
            )->0;
            assert(self@.validator_pool.holds(candidate.validator));
            lemma_holds_index(self@.validator_pool, candidate.validator);
            crate::validator_pool::lemma_index_of_is(
                self@.validator_pool,
                candidate.validator.account_id@,
                i,
            );
            crate::validator_pool::lemma_saved_keeps_wf(
                self@.validator_pool,
                Validator {
                    executing: true,
                    last_unstake_fired_epoch: candidate.validator.unstake_fired_epoch,
                    unstake_fired_epoch: current_epoch,
                    ..candidate.validator
                },
                self@.validator_pool.total_base_stake_amount,
            );
        }
        match candidate.validator.unstake(
            &mut self.validator_pool,
            amount_to_unstake,
            current_epoch,
        ) {
            Ok(()) => {},
            Err(e) => {
                self.set_settlement(before);
                return Err(e);
            },
        }
        self.unstake_amount_to_settle = self.unstake_amount_to_settle - amount_to_unstake;
        Ok(Some(candidate))
    }
}

impl ContractView {
    /// Whether the pool has a validator with the account id `id`.
    pub open spec fn has_validator(self, id: Seq<char>) -> bool {
        self.validator_pool.has_id(id)
    }

    /// The validator with the account id `id`.
    pub open spec fn validator(self, id: Seq<char>) -> Validator {
        self.validator_pool.validators[self.validator_pool.index_of(id)]
    }

    /// The state with the validator `v` written to the pool and another total
    /// of base stake amounts.
    pub open spec fn with_rescaled(self, v: Validator, total_base: u128) -> ContractView {
        ContractView {
            validator_pool: self.validator_pool.saved(v).with_total_base(total_base),
            ..self
        }
    }

    /// Whether the balances that a validator reports are close enough to
    /// those booked for `v` to be taken over: their sum and each of them are
    /// no further from the booked ones than the largest difference allowed.
    pub open spec fn balances_close(v: Validator, staked_balance: u128, unstaked_balance: u128) -> bool {
        let new_total = staked_balance + unstaked_balance;
        let total = v.spec_total_balance();
        &&& new_total <= total + MAX_SYNC_BALANCE_DIFF && total <= new_total
            + MAX_SYNC_BALANCE_DIFF
        &&& staked_balance <= v.staked_amount + MAX_SYNC_BALANCE_DIFF && v.staked_amount
            <= staked_balance + MAX_SYNC_BALANCE_DIFF
        &&& unstaked_balance <= v.unstaked_amount + MAX_SYNC_BALANCE_DIFF && v.unstaked_amount
            <= unstaked_balance + MAX_SYNC_BALANCE_DIFF
    }
}

impl Contract {
    /// Starts the update of the rewards of the validator `validator_id`: takes
    /// its guard. The host is to read the validator's total balance and to
    /// report it to `validator_get_balance_callback`.
    ///
    /// Refused when there is no such validator, and while it is executing.
    pub fn epoch_update_rewards(&mut self, validator_id: &String) -> (r: Result<(), Error>)
        requires
            old(self).wf(),
        ensures
            final(self).wf(),
            r is Ok ==> final(self)@.validator(validator_id@).executing,
            !old(self)@.has_validator(validator_id@) ==> r == Err::<(), Error>(
                Error::ValidatorNotExist,
            ),
            old(self)@.has_validator(validator_id@) && old(self)@.validator(
                validator_id@,
            ).executing ==> r == Err::<(), Error>(Error::ValidatorAlreadyExecutingAction),
            old(self)@.has_validator(validator_id@) && !old(self)@.validator(
                validator_id@,
            ).executing ==> r is Ok,
            r is Err ==> final(self)@ == old(self)@,
            r is Ok ==> final(self)@ == old(self)@.with_saved(
                Validator { executing: true, ..old(self)@.validator(validator_id@) },
            ),
    {
        let mut validator = match self.validator_pool.get_validator(validator_id) {
            Some(v) => v,
            None => {
                return Err(Error::ValidatorNotExist);
            },
        };
        proof {
            lemma_lookup_after_save(self@.validator_pool, validator_id@);
        }
        validator.refresh_total_balance(&mut self.validator_pool)
    }

    /// Starts the withdrawal of all that is unstaked on the validator
    /// `validator_id`: takes its guard and takes the amount, which is
    /// returned, out of its unstaked amount. The host is to withdraw the
    /// amount and to report the outcome to `validator_withdraw_callback`.
    ///
    /// Refused when there is no such validator, while it is being drained,
    /// while it is executing, and while it is in its release period.
    pub fn epoch_withdraw(&mut self, validator_id: &String, current_epoch: EpochHeight) -> (r:
        Result<u128, Error>)
        requires
            old(self).wf(),
        ensures
            final(self).wf(),
            r is Ok ==> final(self)@.validator(validator_id@).executing,
            !old(self)@.has_validator(validator_id@) ==> r == Err::<u128, Error>(
                Error::ValidatorNotExist,
            ),
            old(self)@.has_validator(validator_id@) ==> {
                let v = old(self)@.validator(validator_id@);
                if v.draining {
                    r == Err::<u128, Error>(Error::Draining)
                } else if v.executing {
                    r == Err::<u128, Error>(Error::ValidatorAlreadyExecutingAction)
                } else if v.spec_pending_release(current_epoch) {
                    r == Err::<u128, Error>(Error::ValidatorWithdrawWhenLocked)
                } else {
                    r == Ok::<u128, Error>(v.unstaked_amount)
                }
            },
            r is Err ==> final(self)@ == old(self)@,
            r is Ok ==> final(self)@ == old(self)@.with_saved(
                Validator {
                    executing: true,
                    unstaked_amount: 0,
                    ..old(self)@.validator(validator_id@)
                },
            ),
    {
        let mut validator = match self.validator_pool.get_validator(validator_id) {
            Some(v) => v,
            None => {
                return Err(Error::ValidatorNotExist);
            },
        };
        proof {
            lemma_lookup_after_save(self@.validator_pool, validator_id@);
        }
        if validator.draining {
            return Err(Error::Draining);
        }
        let amount = validator.unstaked_amount;
        match validator.withdraw(&mut self.validator_pool, amount, current_epoch) {
            Ok(()) => Ok(amount),
            Err(e) => Err(e),
        }
    }

    /// Books the outcome of a stake of `amount` to the validator `validator_id`.
    ///
    /// When the stake went through, the amount is added to the validator's
    /// staked amount, and `Ok(true)` says that the host is to read the
    /// validator's balances next and to report them to
    /// `validator_get_account_callback`; the guard stays taken until then.
    /// When it failed, the guard is given back, the amount goes back to what is
    /// left to settle, and the result is `Ok(false)`.
    ///
    /// Refused when there is no such validator, when an amount would no
    /// longer fit, and, for a stake that went through, when the validator's
    /// guard is not taken.
    pub fn validator_staked_callback(&mut self, validator_id: &String, amount: u128, success: bool) -> (r:
        Result<bool, Error>)
        requires
            old(self).wf(),
        ensures
            final(self).wf(),
            r == Ok::<bool, Error>(false) ==> !final(self)@.validator(validator_id@).executing,
            r == Ok::<bool, Error>(true) ==> final(self)@.validator(validator_id@).executing,
            !old(self)@.has_validator(validator_id@) ==> r == Err::<bool, Error>(
                Error::ValidatorNotExist,
            ),
            r is Err ==> final(self)@ == old(self)@,
            old(self)@.has_validator(validator_id@) && success ==> {
                let v = old(self)@.validator(validator_id@);
                if v.staked_amount + amount > u128::MAX {
                    r == Err::<bool, Error>(Error::ArithmeticOverflow)
                } else if !v.executing {
                    r == Err::<bool, Error>(Error::ValidatorSyncBalanceNotExpected)
                } else {
                    r == Ok::<bool, Error>(true) && final(self)@ == old(self)@.with_saved(
                        Validator { staked_amount: (v.staked_amount + amount) as u128, ..v },
                    )
                }
            },
            old(self)@.has_validator(validator_id@) && !success ==> {
                let v = old(self)@.validator(validator_id@);
                if old(self)@.stake_amount_to_settle + amount > u128::MAX {
                    r == Err::<bool, Error>(Error::ArithmeticOverflow)
                } else {
                    r == Ok::<bool, Error>(false) && final(self)@ == old(self)@.after_stake_failure(
                        validator_id@,
                        amount,
                    )
                }
            },
    {
        let mut validator = match self.validator_pool.get_validator(validator_id) {
            Some(v) => v,
            None => {
                return Err(Error::ValidatorNotExist);
            },
        };
        proof {
            lemma_lookup_after_save(self@.validator_pool, validator_id@);
        }
        if success {
            if validator.staked_amount > u128::MAX - amount {
                return Err(Error::ArithmeticOverflow);
            }
            if !validator.executing {
                return Err(Error::ValidatorSyncBalanceNotExpected);
            }
            match validator.on_stake_success(&mut self.validator_pool, amount) {
                Ok(()) => {},
                Err(e) => {
                    return Err(e);
                },
            }
            match validator.sync_account_balance(&mut self.validator_pool, true) {
                Ok(()) => Ok(true),
                Err(e) => Err(e),
            }
        } else {
            let to_settle = match self.stake_amount_to_settle.checked_add(amount) {
                Some(t) => t,
                None => {
                    return Err(Error::ArithmeticOverflow);
                },
            };
            validator.on_stake_failed(&mut self.validator_pool);
            self.stake_amount_to_settle = to_settle;
            Ok(false)
        }
    }

    /// Books the outcome of an unstake of `amount` from the validator `validator_id`.
    ///
    /// When the unstake went through, the amount moves from the validator's
    /// staked amount to its unstaked amount, and `Ok(true)` says that the host
    /// is to read the validator's balances next and to report them to
    /// `validator_get_account_callback`; the guard stays taken until then.
    /// When it failed, the guard is given back, the release period goes back
    /// to the one before, the amount goes back to what is left to settle, and
    /// the result is `Ok(false)`.
    ///
    /// Refused when there is no such validator, when an amount would no
    /// longer fit, and, for an unstake that went through, when the validator's
    /// guard is not taken.
    pub fn validator_unstaked_callback(&mut self, validator_id: &String, amount: u128, success: bool) -> (r:
        Result<bool, Error>)
        requires
            old(self).wf(),
        ensures
            final(self).wf(),
            r == Ok::<bool, Error>(false) ==> !final(self)@.validator(validator_id@).executing,
            r == Ok::<bool, Error>(true) ==> final(self)@.validator(validator_id@).executing,
            !old(self)@.has_validator(validator_id@) ==> r == Err::<bool, Error>(
                Error::ValidatorNotExist,
            ),
            r is Err ==> final(self)@ == old(self)@,
            old(self)@.has_validator(validator_id@) && success ==> {
                let v = old(self)@.validator(validator_id@);
                if amount > v.staked_amount || v.unstaked_amount + amount > u128::MAX {
                    r == Err::<bool, Error>(Error::ArithmeticOverflow)
                } else if !v.executing {
                    r == Err::<bool, Error>(Error::ValidatorSyncBalanceNotExpected)
                } else {
                    r == Ok::<bool, Error>(true) && final(self)@ == old(self)@.with_saved(
                        Validator {
                            staked_amount: (v.staked_amount - amount) as u128,
                            unstaked_amount: (v.unstaked_amount + amount) as u128,
                            ..v
                        },
                    )
                }
            },
            old(self)@.has_validator(validator_id@) && !success ==> {
                let v = old(self)@.validator(validator_id@);
                if old(self)@.unstake_amount_to_settle + amount > u128::MAX {
                    r == Err::<bool, Error>(Error::ArithmeticOverflow)
                } else {
                    r == Ok::<bool, Error>(false) && final(self)@ == old(self)@.after_unstake_failure(validator_id@, amount)
                }
            },
    {
        let mut validator = match self.validator_pool.get_validator(validator_id) {
            Some(v) => v,
            None => {
                return Err(Error::ValidatorNotExist);
            },
        };
        proof {
            lemma_lookup_after_save(self@.validator_pool, validator_id@);
        }
        if success {
            if amount > validator.staked_amount || validator.unstaked_amount > u128::MAX - amount {
                return Err(Error::ArithmeticOverflow);
            }
            if !validator.executing {
                return Err(Error::ValidatorSyncBalanceNotExpected);
            }
            match validator.on_unstake_success(&mut self.validator_pool, amount) {
                Ok(()) => {},
                Err(e) => {
                    return Err(e);
                },
            }
            match validator.sync_account_balance(&mut self.validator_pool, true) {
                Ok(()) => Ok(true),
                Err(e) => Err(e),
            }
        } else {
            let to_settle = match self.unstake_amount_to_settle.checked_add(amount) {
                Some(t) => t,
                None => {
                    return Err(Error::ArithmeticOverflow);
                },
            };
            validator.on_unstake_failed(&mut self.validator_pool);
            self.unstake_amount_to_settle = to_settle;
            Ok(false)
        }
    }

    /// Books the total balance that the validator `validator_id` reported, or
    /// that it could not be read (`None`), and gives the validator's guard back.
    ///
    /// What the validator holds above what is booked for it is a reward: it is
    /// added to the staked amount of the pool, and the beneficiaries get their
    /// shares of it, which are returned in the order of the beneficiaries for
    /// the host to mint. Without a reward, and when the balance could not be
    /// read, nothing is returned.
    ///
    /// Refused when there is no such validator, when the validator reports
    /// less than is booked for it, when an amount would no longer fit, and
    /// when the shares cannot be distributed.
    pub fn validator_get_balance_callback(&mut self, validator_id: &String, call_result: Option<u128>) -> (r:
        Result<Vec<u128>, Error>)
        requires
            old(self).wf(),
        ensures
            final(self).wf(),
            r is Ok ==> !final(self)@.validator(validator_id@).executing,
            old(self)@.price_at_least_one() ==> final(self)@.price_at_least_one(),
            !old(self)@.has_validator(validator_id@) ==> r == Err::<Vec<u128>, Error>(
                Error::ValidatorNotExist,
            ),
            r is Err ==> final(self)@ == old(self)@,
            old(self)@.has_validator(validator_id@) && call_result is None ==> {
                &&& r matches Ok(shares)
                &&& shares@.len() == 0
                &&& final(self)@ == old(self)@.with_saved(
                    Validator { executing: false, ..old(self)@.validator(validator_id@) },
                )
            },
            old(self)@.has_validator(validator_id@) && call_result is Some ==> {
                let v = old(self)@.validator(validator_id@);
                let new_balance = call_result->0;
                let rewards = new_balance - v.spec_total_balance();
                let booked = old(self)@.with_rescaled(
                    Validator {
                        executing: false,
                        base_stake_amount: v.rescaled_base(new_balance) as u128,
                        staked_amount: (new_balance - v.unstaked_amount) as u128,
                        ..v
                    },
                    v.rescaled_total_base(old(self)@.validator_pool, new_balance) as u128,
                );
                if rewards < 0 || !v.can_rescale(old(self)@.validator_pool, new_balance) {
                    r == Err::<Vec<u128>, Error>(Error::ArithmeticOverflow)
                } else if rewards == 0 {
                    &&& r matches Ok(shares)
                    &&& shares@.len() == 0
                    &&& final(self)@ == booked
                } else if old(self)@.total_staked_near_amount + rewards > u128::MAX {
                    r == Err::<Vec<u128>, Error>(Error::ArithmeticOverflow)
                } else {
                    match distribution(
                        old(self)@.total_share_amount,
                        (old(self)@.total_staked_near_amount + rewards) as u128,
                        old(self)@.beneficiaries,
                        rewards as u128,
                    ) {
                        Err(e) => r == Err::<Vec<u128>, Error>(e),
                        Ok(minted) => {
                            &&& r matches Ok(shares)
                            &&& shares@ == minted
                            &&& final(self)@ == (ContractView {
                                total_staked_near_amount: (old(self)@.total_staked_near_amount
                                    + rewards) as u128,
                                total_share_amount: (old(self)@.total_share_amount + seq_total(
                                    minted,
                                )) as u128,
                                ..booked
                            })
                        },
                    }
                }
            },
    {
        let mut validator = match self.validator_pool.get_validator(validator_id) {
            Some(v) => v,
            None => {
                return Err(Error::ValidatorNotExist);
            },
        };
        proof {
            lemma_lookup_after_save(self@.validator_pool, validator_id@);
        }
        let new_balance = match call_result {
            Some(b) => b,
            None => {
                validator.on_get_account_total_balance_failed(&mut self.validator_pool);
                return Ok(Vec::new());
            },
        };
        let total_balance = match validator.staked_amount.checked_add(validator.unstaked_amount) {
            Some(t) => t,
            None => {
                return Err(Error::ArithmeticOverflow);
            },
        };
        if new_balance < total_balance {
            return Err(Error::ArithmeticOverflow);
        }
        let rewards = new_balance - total_balance;
        if validator.rescale(&self.validator_pool, new_balance).is_none() {
            return Err(Error::ArithmeticOverflow);
        }
        if rewards == 0 {
            match validator.on_new_total_balance(&mut self.validator_pool, new_balance) {
                Ok(()) => {},
                Err(e) => {
                    return Err(e);
                },
            }
            return Ok(Vec::new());
        }
        let total_staked = match self.total_staked_near_amount.checked_add(rewards) {
            Some(t) => t,
            None => {
                return Err(Error::ArithmeticOverflow);
            },
        };
        let shares = match reward_shares(
            self.total_share_amount,
            total_staked,
            &self.beneficiaries,
            rewards,
        ) {
            Ok(s) => s,
            Err(e) => {
                return Err(e);
            },
        };
        match validator.on_new_total_balance(&mut self.validator_pool, new_balance) {
            Ok(()) => {},
            Err(e) => {
                return Err(e);
            },
        }
        proof {
            if self@.price_at_least_one() {
                crate::owner::lemma_bps_nonnegative(self@.beneficiaries);
                crate::internal::lemma_reward_shares_at_most_reward(
                    self.total_share_amount,
                    total_staked,
                    self@.beneficiaries,
                    rewards,
                );
            }
        }
        self.total_staked_near_amount = total_staked;
        self.total_share_amount = self.total_share_amount + total_of(&shares);
        Ok(shares)
    }

    /// Books the balances that the validator `validator_id` reported, as its
    /// staked and its unstaked balance, or that they could not be read
    /// (`None`), and gives the validator's guard back.
    ///
    /// Balances that are close to the booked ones are taken over, and the
    /// validator's base stake amount is rescaled with them. Balances that are
    /// further off are left aside.
    ///
    /// Refused when there is no such validator, and when an amount would no
    /// longer fit.
    pub fn validator_get_account_callback(
        &mut self,
        validator_id: &String,
        result: Option<(u128, u128)>,
    ) -> (r: Result<bool, Error>)
        requires
            old(self).wf(),
        ensures
            final(self).wf(),
            !old(self)@.has_validator(validator_id@) ==> r == Err::<bool, Error>(
                Error::ValidatorNotExist,
            ),
            r is Err ==> final(self)@ == old(self)@,
            r is Ok ==> r == Ok::<bool, Error>(true) && !final(self)@.validator(
                validator_id@,
            ).executing,
            old(self)@.has_validator(validator_id@) && result is None ==> r is Ok && final(self)@
                == old(self)@.with_saved(
                Validator { executing: false, ..old(self)@.validator(validator_id@) },
            ),
            old(self)@.has_validator(validator_id@) && result is Some ==> {
                let v = old(self)@.validator(validator_id@);
                let (staked_balance, unstaked_balance) = result->0;
                let new_total = staked_balance + unstaked_balance;
                if new_total > u128::MAX || v.spec_total_balance() > u128::MAX {
                    r == Err::<bool, Error>(Error::ArithmeticOverflow)
                } else if !ContractView::balances_close(v, staked_balance, unstaked_balance) {
                    r is Ok && final(self)@ == old(self)@.with_saved(
                        Validator { executing: false, ..v },
                    )
                } else if !v.can_rescale(old(self)@.validator_pool, new_total as u128) {
                    r == Err::<bool, Error>(Error::ArithmeticOverflow)
                } else {
                    r is Ok && final(self)@ == old(self)@.with_rescaled(
                        Validator {
                            executing: false,
                            base_stake_amount: v.rescaled_base(new_total as u128) as u128,
                            staked_amount: staked_balance,
                            unstaked_amount: unstaked_balance,
                            ..v
                        },
                        v.rescaled_total_base(old(self)@.validator_pool, new_total as u128) as u128,
                    )
                }
            },
    {
        let mut validator = match self.validator_pool.get_validator(validator_id) {
            Some(v) => v,
            None => {
                return Err(Error::ValidatorNotExist);
            },
        };
        proof {
            lemma_lookup_after_save(self@.validator_pool, validator_id@);
        }
        proof {
            lemma_holds_index(self@.validator_pool, validator);
            crate::validator_pool::lemma_saved_keeps_wf(
                self@.validator_pool,
                Validator { executing: false, ..validator },
                self@.validator_pool.total_base_stake_amount,
            );
        }
        let (staked_balance, unstaked_balance) = match result {
            Some(balances) => balances,
            None => {
                validator.on_sync_account_balance_failed(&mut self.validator_pool);
                return Ok(true);
            },
        };
        let new_total_balance = match staked_balance.checked_add(unstaked_balance) {
            Some(t) => t,
            None => {
                return Err(Error::ArithmeticOverflow);
            },
        };
        let total_balance = match validator.staked_amount.checked_add(validator.unstaked_amount) {
            Some(t) => t,
            None => {
                return Err(Error::ArithmeticOverflow);
            },
        };
        if abs_diff_eq(new_total_balance, total_balance, MAX_SYNC_BALANCE_DIFF) && abs_diff_eq(
            staked_balance,
            validator.staked_amount,
            MAX_SYNC_BALANCE_DIFF,
        ) && abs_diff_eq(unstaked_balance, validator.unstaked_amount, MAX_SYNC_BALANCE_DIFF) {
            proof {
                if validator.can_rescale(self@.validator_pool, new_total_balance) {
                    crate::validator_pool::lemma_saved_keeps_wf(
                        self@.validator_pool,
                        Validator {
                            executing: false,
                            base_stake_amount: validator.rescaled_base(new_total_balance) as u128,
                            staked_amount: staked_balance,
                            unstaked_amount: unstaked_balance,
                            ..validator
                        },
                        validator.rescaled_total_base(
                            self@.validator_pool,
                            new_total_balance,
                        ) as u128,
                    );
                }
            }
            match validator.on_sync_account_balance_success(
                &mut self.validator_pool,
                staked_balance,
                unstaked_balance,
            ) {
                Ok(()) => Ok(true),
                Err(e) => Err(e),
            }
        } else {
            validator.on_sync_account_balance_failed(&mut self.validator_pool);
            Ok(true)
        }
    }

    /// Books the outcome of a withdrawal of `amount` from the validator
    /// `validator_id`, and gives the validator's guard back. After a
    /// withdrawal that failed, the amount goes back to the validator's
    /// unstaked amount.
    ///
    /// Refused when there is no such validator, and when the unstaked amount
    /// would no longer fit.
    pub fn validator_withdraw_callback(&mut self, validator_id: &String, amount: u128, success: bool) -> (r:
        Result<(), Error>)
        requires
            old(self).wf(),
        ensures
            final(self).wf(),
            !old(self)@.has_validator(validator_id@) ==> r == Err::<(), Error>(
                Error::ValidatorNotExist,
            ),
            r is Err ==> final(self)@ == old(self)@,
            r is Ok ==> !final(self)@.validator(validator_id@).executing,
            old(self)@.has_validator(validator_id@) && success ==> r is Ok && final(self)@ == old(self)@.with_saved(Validator { executing: false, ..old(self)@.validator(validator_id@) }),
            old(self)@.has_validator(validator_id@) && !success ==> {
                let v = old(self)@.validator(validator_id@);
                if v.unstaked_amount + amount > u128::MAX {
                    r == Err::<(), Error>(Error::ArithmeticOverflow)
                } else {
                    r is Ok && final(self)@ == old(self)@.with_saved(
                        Validator {
                            executing: false,
                            unstaked_amount: (v.unstaked_amount + amount) as u128,
                            ..v
                        },
                    )
                }
            },
    {
        let mut validator = match self.validator_pool.get_validator(validator_id) {
            Some(v) => v,
            None => {
                return Err(Error::ValidatorNotExist);
            },
        };
        proof {
            lemma_lookup_after_save(self@.validator_pool, validator_id@);
        }
        proof {
            lemma_holds_index(self@.validator_pool, validator);
            crate::validator_pool::lemma_saved_keeps_wf(
                self@.validator_pool,
                Validator { executing: false, ..validator },
                self@.validator_pool.total_base_stake_amount,
            );
            if validator.unstaked_amount + amount <= u128::MAX {
                crate::validator_pool::lemma_saved_keeps_wf(
                    self@.validator_pool,
                    Validator {
                        executing: false,
                        unstaked_amount: (validator.unstaked_amount + amount) as u128,
                        ..validator
                    },
                    self@.validator_pool.total_base_stake_amount,
                );
            }
        }
        if success {
            validator.on_withdraw_success(&mut self.validator_pool);
            Ok(())
        } else {
            validator.on_withdraw_failed(&mut self.validator_pool, amount)
        }
    }
}

/// Whatever validator with the account id `id` is written to a pool that has
/// one, the pool then has that validator under `id`.
pub proof fn lemma_lookup_after_save(pool: PoolView, id: Seq<char>)
    requires
        pool.has_id(id),
    ensures
        forall|v: Validator|
            v.account_id@ == id ==> (#[trigger] pool.saved(v)).validators[pool.saved(v).index_of(id)]
                == v,
        forall|v: Validator, total: u128|
            v.account_id@ == id ==> (#[trigger] pool.saved(v).with_total_base(
                total,
            )).validators[pool.saved(v).with_total_base(total).index_of(id)] == v,
{
    assert forall|v: Validator| v.account_id@ == id implies (#[trigger] pool.saved(
        v,
    )).validators[pool.saved(v).index_of(id)] == v by {
        lemma_saved_lookup(pool, v);
    }
    assert forall|v: Validator, total: u128| v.account_id@ == id implies (#[trigger] pool.saved(
        v,
    ).with_total_base(total)).validators[pool.saved(v).with_total_base(total).index_of(id)]
        == v by {
        lemma_saved_lookup(pool, v);
        assert(pool.saved(v).with_total_base(total).index_of(id) == pool.saved(v).index_of(id));
    }
}

impl ContractView {
    /// The state after the trigger of a stake of `amount` to the validator at
    /// place `i`: the guard is taken and the amount is out of what is left to settle.
    pub open spec fn after_stake_trigger(self, i: int, amount: u128) -> ContractView {
        ContractView {
            stake_amount_to_settle: (self.stake_amount_to_settle - amount) as u128,
            ..self.with_saved(Validator { executing: true, ..self.validator_pool.validators[i] })
        }
    }

    /// The state after the callback of a stake of `amount` to the validator
    /// `id` that failed: the guard is given back and the amount is to settle again.
    pub open spec fn after_stake_failure(self, id: Seq<char>, amount: u128) -> ContractView {
        ContractView {
            stake_amount_to_settle: (self.stake_amount_to_settle + amount) as u128,
            ..self.with_saved(Validator { executing: false, ..self.validator(id) })
        }
    }

    /// The state after the trigger of an unstake of `amount` from the
    /// validator at place `i` at `epoch`: the guard is taken, the release
    /// period is opened and the amount is out of what is left to settle.
    pub open spec fn after_unstake_trigger(self, i: int, amount: u128, epoch: EpochHeight) -> ContractView {
        let v = self.validator_pool.validators[i];
        ContractView {
            unstake_amount_to_settle: (self.unstake_amount_to_settle - amount) as u128,
            ..self.with_saved(
                Validator {
                    executing: true,
                    last_unstake_fired_epoch: v.unstake_fired_epoch,
                    unstake_fired_epoch: epoch,
                    ..v
                },
            )
        }
    }

    /// The state after the callback of an unstake of `amount` from the
    /// validator `id` that failed: the guard is given back, the release period
    /// is the one before, and the amount is to settle again.
    pub open spec fn after_unstake_failure(self, id: Seq<char>, amount: u128) -> ContractView {
        let v = self.validator(id);
        ContractView {
            unstake_amount_to_settle: (self.unstake_amount_to_settle + amount) as u128,
            ..self.with_saved(
                Validator {
                    executing: false,
                    unstake_fired_epoch: v.last_unstake_fired_epoch,
                    ..v
                },
            )
        }
    }
}

/// A stake that fails leaves the state as it was before its trigger.
pub proof fn lemma_failed_stake_leaves_no_trace(state: ContractView, i: int, amount: u128)
    requires
        state.validator_pool.wf(),
        0 <= i < state.validator_pool.validators.len(),
        !state.validator_pool.validators[i].executing,
        amount <= state.stake_amount_to_settle,
    ensures
        state.after_stake_trigger(i, amount).validator(
            state.validator_pool.validators[i].account_id@,
        ).executing,
        state.after_stake_trigger(i, amount).after_stake_failure(
            state.validator_pool.validators[i].account_id@,
            amount,
        ) == state,
{
    let pool = state.validator_pool;
    let v = pool.validators[i];
    let id = v.account_id@;
    lemma_index_of_is(pool, id, i);
    let taken = Validator { executing: true, ..v };
    lemma_saved_lookup(pool, taken);
    let mid = state.after_stake_trigger(i, amount);
    assert(mid.validator(id) == taken);
    lemma_saved_lookup(mid.validator_pool, v);
    assert(mid.validator_pool.saved(v).validators =~= pool.validators);
}

/// An unstake that fails leaves the state as it was before its trigger, but
/// for the epoch that the validator keeps to go back to.
pub proof fn lemma_failed_unstake_leaves_the_snapshot(
    state: ContractView,
    i: int,
    amount: u128,
    epoch: EpochHeight,
)
    requires
        state.validator_pool.wf(),
        0 <= i < state.validator_pool.validators.len(),
        !state.validator_pool.validators[i].executing,
        amount <= state.unstake_amount_to_settle,
    ensures
        state.after_unstake_trigger(i, amount, epoch).validator(
            state.validator_pool.validators[i].account_id@,
        ).executing,
        state.after_unstake_trigger(i, amount, epoch).after_unstake_failure(
            state.validator_pool.validators[i].account_id@,
            amount,
        ) == state.with_saved(
            Validator {
                last_unstake_fired_epoch: state.validator_pool.validators[i].unstake_fired_epoch,
                ..state.validator_pool.validators[i]
            },
        ),
{
    let pool = state.validator_pool;
    let v = pool.validators[i];
    let id = v.account_id@;
    lemma_index_of_is(pool, id, i);
    let taken = Validator {
        executing: true,
        last_unstake_fired_epoch: v.unstake_fired_epoch,
        unstake_fired_epoch: epoch,
        ..v
    };
    let back = Validator { last_unstake_fired_epoch: v.unstake_fired_epoch, ..v };
    lemma_saved_lookup(pool, taken);
    lemma_saved_lookup(pool, back);
    let mid = state.after_unstake_trigger(i, amount, epoch);
    assert(mid.validator(id) == taken);
    lemma_saved_lookup(mid.validator_pool, back);
    assert(mid.validator_pool.saved(back).validators =~= pool.saved(back).validators);
}

} // verus!
