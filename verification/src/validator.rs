//! One validator of the pool: its balances, its lock timer and the guard that
//! keeps two operations from running on it at once.

use vstd::prelude::*;
use crate::errors::Error;
use crate::math::{mul_div_floor, mul_div_rem};
use crate::utils::{EpochHeight, NUM_EPOCHS_TO_UNLOCK};
use crate::validator_pool::{lemma_holds_index, lemma_saved_keeps_wf, PoolView, ValidatorPool};

verus! {

/// One external staking position.
#[derive(Debug)]
pub struct Validator {
    pub account_id: String,
    pub weight: u16,
    pub staked_amount: u128,
    pub unstaked_amount: u128,
    /// The amount that this validator is given before any weighted share.
    pub base_stake_amount: u128,
    /// The epoch in which the latest unstake was fired on this validator.
    pub unstake_fired_epoch: EpochHeight,
    /// The value of `unstake_fired_epoch` before the latest unstake, to go back to when it fails.
    pub last_unstake_fired_epoch: EpochHeight,
    /// Whether the validator is being drained.
    pub draining: bool,
    /// Whether an operation is under way on the validator.
    pub executing: bool,
}

impl Clone for Validator {
    fn clone(&self) -> (copy: Self)
        ensures
            copy == *self,
    {
        Validator {
            account_id: self.account_id.clone(),
            weight: self.weight,
            staked_amount: self.staked_amount,
            unstaked_amount: self.unstaked_amount,
            base_stake_amount: self.base_stake_amount,
            unstake_fired_epoch: self.unstake_fired_epoch,
            last_unstake_fired_epoch: self.last_unstake_fired_epoch,
            draining: self.draining,
            executing: self.executing,
        }
    }
}

/// A validator chosen for the next stake or unstake, with the amount to move.
#[derive(Debug)]
pub struct CandidateValidator {
    pub validator: Validator,
    pub amount: u128,
}

impl Validator {
    /// A validator that holds nothing yet.
    pub fn new(account_id: String, weight: u16) -> (v: Self)
        ensures
            v == (Validator {
                account_id,
                weight,
                staked_amount: 0,
                unstaked_amount: 0,
                base_stake_amount: 0,
                unstake_fired_epoch: 0,
                last_unstake_fired_epoch: 0,
                draining: false,
                executing: false,
            }),
    {
        Validator {
            account_id,
            weight,
            base_stake_amount: 0,
            staked_amount: 0,
            unstaked_amount: 0,
            unstake_fired_epoch: 0,
            last_unstake_fired_epoch: 0,
            draining: false,
            executing: false,
        }
    }

    /// Staked and unstaked amount together.
    pub open spec fn spec_total_balance(&self) -> int {
        self.staked_amount + self.unstaked_amount
    }

    /// Staked and unstaked amount together.
    pub fn total_balance(&self) -> (total: u128)
        requires
            self.spec_total_balance() <= u128::MAX,
        ensures
            total == self.spec_total_balance(),
    {
        self.staked_amount + self.unstaked_amount
    }

    /// Whether `current_epoch` lies in the release period that the latest unstake opened.
    pub open spec fn spec_pending_release(&self, current_epoch: EpochHeight) -> bool {
        self.unstake_fired_epoch <= current_epoch < self.unstake_fired_epoch
            + NUM_EPOCHS_TO_UNLOCK
    }

    /// Whether the validator is in its release period at `current_epoch`.
    pub fn pending_release(&self, current_epoch: EpochHeight) -> (pending: bool)
        ensures
            pending == self.spec_pending_release(current_epoch),
    {
        current_epoch >= self.unstake_fired_epoch && current_epoch - self.unstake_fired_epoch
            < NUM_EPOCHS_TO_UNLOCK
    }
}

/// What the views show of a validator: its amounts, its target, and the two flags.
#[derive(Debug)]
pub struct ValidatorInfo {
    pub account_id: String,
    pub weight: u16,
    pub base_stake_amount: u128,
    pub target_stake_amount: u128,
    pub staked_amount: u128,
    pub unstaked_amount: u128,
    pub pending_release: bool,
    pub draining: bool,
}

/// A validator as it is stored, by the version of its layout.
#[derive(Debug)]
pub enum VersionedValidator {
    Current(Validator),
}

impl VersionedValidator {
    /// The validator that is stored.
    pub open spec fn validator(self) -> Validator {
        match self {
            VersionedValidator::Current(v) => v,
        }
    }
}

impl From<Validator> for VersionedValidator {
    fn from(v: Validator) -> (stored: Self)
        ensures
            stored == VersionedValidator::Current(v),
    {
        VersionedValidator::Current(v)
    }
}

impl vstd::std_specs::convert::FromSpecImpl<Validator> for VersionedValidator {
    open spec fn obeys_from_spec() -> bool {
        true
    }

    open spec fn from_spec(v: Validator) -> Self {
        VersionedValidator::Current(v)
    }
}

impl From<VersionedValidator> for Validator {
    fn from(value: VersionedValidator) -> (v: Self)
        ensures
            v == value.validator(),
    {
        match value {
            VersionedValidator::Current(v) => v,
        }
    }
}

impl vstd::std_specs::convert::FromSpecImpl<VersionedValidator> for Validator {
    open spec fn obeys_from_spec() -> bool {
        true
    }

    open spec fn from_spec(value: VersionedValidator) -> Self {
        value.validator()
    }
}

impl Validator {
    /// Whether `pool` is well-formed and holds this validator as it is.
    pub open spec fn kept_in(&self, pool: PoolView) -> bool {
        pool.wf() && pool.holds(*self)
    }

    /// The base stake amount after the validator's total balance has become
    /// `new_total_balance`: in the same proportion to it as before.
    pub open spec fn rescaled_base(&self, new_total_balance: u128) -> int {
        if self.spec_total_balance() != 0 && self.base_stake_amount != 0 {
            mul_div_floor(
                self.base_stake_amount as int,
                new_total_balance as int,
                self.spec_total_balance(),
            )
        } else {
            self.base_stake_amount as int
        }
    }

    /// The pool's total of base stake amounts after this validator's base
    /// stake amount has been rescaled.
    pub open spec fn rescaled_total_base(&self, pool: PoolView, new_total_balance: u128) -> int {
        pool.total_base_stake_amount - self.base_stake_amount + self.rescaled_base(
            new_total_balance,
        )
    }

    /// Whether the base stake amount can be rescaled: the balances, the new
    /// base stake amount and the pool's new total all fit.
    pub open spec fn can_rescale(&self, pool: PoolView, new_total_balance: u128) -> bool {
        &&& self.spec_total_balance() <= u128::MAX
        &&& self.rescaled_base(new_total_balance) <= u128::MAX
        &&& 0 <= self.rescaled_total_base(pool, new_total_balance) <= u128::MAX
    }

    /// The new base stake amount and the pool's new total, if they fit.
    pub(crate) fn rescale(&self, pool: &ValidatorPool, new_total_balance: u128) -> (r: Option<
        (u128, u128),
    >)
        ensures
            r is Some <==> self.can_rescale(pool@, new_total_balance),
            r matches Some((base, total)) ==> base == self.rescaled_base(new_total_balance)
                && total == self.rescaled_total_base(pool@, new_total_balance),
    {
        let old_total_balance = match self.staked_amount.checked_add(self.unstaked_amount) {
            Some(t) => t,
            None => {
                return None;
            },
        };
        let base = if old_total_balance != 0 && self.base_stake_amount != 0 {
            match mul_div_rem(self.base_stake_amount, new_total_balance, old_total_balance) {
                Some((q, _)) => q,
                None => {
                    return None;
                },
            }
        } else {
            self.base_stake_amount
        };
        if base >= self.base_stake_amount {
            match pool.total_base_stake_amount.checked_add(base - self.base_stake_amount) {
                Some(total) => Some((base, total)),
                None => None,
            }
        } else {
            match pool.total_base_stake_amount.checked_sub(self.base_stake_amount - base) {
                Some(total) => Some((base, total)),
                None => None,
            }
        }
    }

    /// What the views show of this validator.
    pub fn get_info(
        &self,
        pool: &ValidatorPool,
        total_staked_near_amount: u128,
        current_epoch: EpochHeight,
    ) -> (info: ValidatorInfo)
        requires
            self.weight <= pool@.total_weight,
            self.base_stake_amount <= pool@.total_base_stake_amount,
        ensures
            info.account_id@ == self.account_id@,
            info.weight == self.weight,
            info.base_stake_amount == self.base_stake_amount,
            info.target_stake_amount == pool@.target_stake_amount(total_staked_near_amount, *self),
            info.staked_amount == self.staked_amount,
            info.unstaked_amount == self.unstaked_amount,
            info.pending_release == self.spec_pending_release(current_epoch),
            info.draining == self.draining,
    {
        ValidatorInfo {
            account_id: self.account_id.clone(),
            weight: self.weight,
            base_stake_amount: self.base_stake_amount,
            target_stake_amount: pool.validator_target_stake_amount(total_staked_near_amount, self),
            staked_amount: self.staked_amount,
            unstaked_amount: self.unstaked_amount,
            pending_release: self.pending_release(current_epoch),
            draining: self.draining,
        }
    }

    /// Writes the validator to the pool, where its weight and base stake
    /// amount are as the pool has them.
    fn store(&self, pool: &mut ValidatorPool, Ghost(before): Ghost<Validator>)
        requires
            before.account_id == self.account_id,
            before.weight == self.weight,
            before.base_stake_amount == self.base_stake_amount,
        ensures
            final(pool)@ == old(pool)@.saved(*self),
            before.kept_in(old(pool)@) ==> self.kept_in(final(pool)@),
    {
        proof {
            if before.kept_in(pool@) {
                lemma_holds_index(pool@, before);
                lemma_saved_keeps_wf(pool@, *self, pool@.total_base_stake_amount);
            }
        }
        pool.save_validator(self);
    }

    /// Takes the guard for an operation on the validator.
    fn pre_execution(&mut self, pool: &mut ValidatorPool) -> (r: Result<(), Error>)
        ensures
            old(self).executing ==> r == Err::<(), Error>(Error::ValidatorAlreadyExecutingAction),
            !old(self).executing ==> r is Ok,
            r is Err ==> *final(self) == *old(self) && final(pool)@ == old(pool)@,
            r is Ok ==> *final(self) == (Validator { executing: true, ..*old(self) }) && final(pool)@ == old(pool)@.saved(*final(self)),
            old(self).kept_in(old(pool)@) ==> final(self).kept_in(final(pool)@),
    {
        if self.executing {
            return Err(Error::ValidatorAlreadyExecutingAction);
        }
        let ghost before = *self;
        self.executing = true;
        self.store(pool, Ghost(before));
        Ok(())
    }

    /// Gives the guard back.
    fn post_execution(&mut self, pool: &mut ValidatorPool)
        ensures
            *final(self) == (Validator { executing: false, ..*old(self) }),
            final(pool)@ == old(pool)@.saved(*final(self)),
            old(self).kept_in(old(pool)@) ==> final(self).kept_in(final(pool)@),
    {
        let ghost before = *self;
        self.executing = false;
        self.store(pool, Ghost(before));
    }

    /// Starts a stake of `amount` on the validator: takes the guard.
    ///
    /// Refused while another operation is under way on the validator.
    pub fn deposit_and_stake(&mut self, pool: &mut ValidatorPool, amount: u128) -> (r: Result<
        (),
        Error,
    >)
        ensures
            old(self).executing ==> r == Err::<(), Error>(Error::ValidatorAlreadyExecutingAction),
            !old(self).executing ==> r is Ok,
            r is Err ==> *final(self) == *old(self) && final(pool)@ == old(pool)@,
            r is Ok ==> *final(self) == (Validator { executing: true, ..*old(self) }) && final(pool)@ == old(pool)@.saved(*final(self)),
            old(self).kept_in(old(pool)@) ==> final(self).kept_in(final(pool)@),
    {
        self.pre_execution(pool)
    }

    /// Books a stake of `amount` that went through. The guard stays taken: the
    /// balances are to be read back from the validator next.
    ///
    /// Refused when the staked amount would no longer fit.
    pub fn on_stake_success(&mut self, pool: &mut ValidatorPool, amount: u128) -> (r: Result<
        (),
        Error,
    >)
        ensures
            r is Ok <==> old(self).staked_amount + amount <= u128::MAX,
            r is Err ==> r == Err::<(), Error>(Error::ArithmeticOverflow) && *final(self) == *old(self) && final(pool)@ == old(pool)@,
            r is Ok ==> *final(self) == (Validator {
                staked_amount: (old(self).staked_amount + amount) as u128,
                ..*old(self)
            }) && final(pool)@ == old(pool)@.saved(*final(self)),
            old(self).kept_in(old(pool)@) ==> final(self).kept_in(final(pool)@),
    {
        let staked = match self.staked_amount.checked_add(amount) {
            Some(s) => s,
            None => {
                return Err(Error::ArithmeticOverflow);
            },
        };
        let ghost before = *self;
        self.staked_amount = staked;
        self.store(pool, Ghost(before));
        Ok(())
    }

    /// Gives the guard back after a stake that failed.
    pub fn on_stake_failed(&mut self, pool: &mut ValidatorPool)
        ensures
            *final(self) == (Validator { executing: false, ..*old(self) }),
            final(pool)@ == old(pool)@.saved(*final(self)),
            old(self).kept_in(old(pool)@) ==> final(self).kept_in(final(pool)@),
    {
        self.post_execution(pool);
    }

    /// Starts an unstake of `amount` at `current_epoch`: takes the guard and
    /// opens the release period, keeping the epoch of the unstake before.
    ///
    /// Refused while the validator is in its release period, when it holds
    /// less than `amount`, and while another operation is under way on it.
    pub fn unstake(
        &mut self,
        pool: &mut ValidatorPool,
        amount: u128,
        current_epoch: EpochHeight,
    ) -> (r: Result<(), Error>)
        ensures
            old(self).spec_pending_release(current_epoch) ==> r == Err::<(), Error>(
                Error::ValidatorUnstakeWhenLocked,
            ),
            !old(self).spec_pending_release(current_epoch) && amount > old(self).staked_amount
                ==> r == Err::<(), Error>(Error::ValidatorUnstakeAmount),
            !old(self).spec_pending_release(current_epoch) && amount <= old(self).staked_amount
                && old(self).executing ==> r == Err::<(), Error>(
                Error::ValidatorAlreadyExecutingAction,
            ),
            !old(self).spec_pending_release(current_epoch) && amount <= old(self).staked_amount
                && !old(self).executing ==> r is Ok,
            r is Err ==> *final(self) == *old(self) && final(pool)@ == old(pool)@,
            r is Ok ==> *final(self) == (Validator {
                executing: true,
                last_unstake_fired_epoch: old(self).unstake_fired_epoch,
                unstake_fired_epoch: current_epoch,
                ..*old(self)
            }) && final(pool)@ == old(pool)@.saved(*final(self)),
            old(self).kept_in(old(pool)@) ==> final(self).kept_in(final(pool)@),
    {
        if self.pending_release(current_epoch) {
            return Err(Error::ValidatorUnstakeWhenLocked);
        }
        if amount > self.staked_amount {
            return Err(Error::ValidatorUnstakeAmount);
        }
        if self.executing {
            return Err(Error::ValidatorAlreadyExecutingAction);
        }
        let ghost before = *self;
        self.executing = true;
        self.last_unstake_fired_epoch = self.unstake_fired_epoch;
        self.unstake_fired_epoch = current_epoch;
        self.store(pool, Ghost(before));
        Ok(())
    }

    /// Books an unstake of `amount` that went through: the amount moves from
    /// staked to unstaked. The guard stays taken: the balances are to be read
    /// back from the validator next.
    ///
    /// Refused when the validator holds less than `amount`, or when the
    /// unstaked amount would no longer fit.
    pub fn on_unstake_success(&mut self, pool: &mut ValidatorPool, amount: u128) -> (r: Result<
        (),
        Error,
    >)
        ensures
            r is Ok <==> amount <= old(self).staked_amount && old(self).unstaked_amount + amount
                <= u128::MAX,
            r is Err ==> r == Err::<(), Error>(Error::ArithmeticOverflow) && *final(self) == *old(self) && final(pool)@ == old(pool)@,
            r is Ok ==> *final(self) == (Validator {
                staked_amount: (old(self).staked_amount - amount) as u128,
                unstaked_amount: (old(self).unstaked_amount + amount) as u128,
                ..*old(self)
            }) && final(pool)@ == old(pool)@.saved(*final(self)),
            old(self).kept_in(old(pool)@) ==> final(self).kept_in(final(pool)@),
    {
        let staked = match self.staked_amount.checked_sub(amount) {
            Some(s) => s,
            None => {
                return Err(Error::ArithmeticOverflow);
            },
        };
        let unstaked = match self.unstaked_amount.checked_add(amount) {
            Some(s) => s,
            None => {
                return Err(Error::ArithmeticOverflow);
            },
        };
        let ghost before = *self;
        self.staked_amount = staked;
        self.unstaked_amount = unstaked;
        self.store(pool, Ghost(before));
        Ok(())
    }

    /// Gives the guard back after an unstake that failed, and goes back to the
    /// release period of the unstake before.
    pub fn on_unstake_failed(&mut self, pool: &mut ValidatorPool)
        ensures
            *final(self) == (Validator {
                executing: false,
                unstake_fired_epoch: old(self).last_unstake_fired_epoch,
                ..*old(self)
            }),
            final(pool)@ == old(pool)@.saved(*final(self)),
            old(self).kept_in(old(pool)@) ==> final(self).kept_in(final(pool)@),
    {
        let ghost before = *self;
        self.executing = false;
        self.unstake_fired_epoch = self.last_unstake_fired_epoch;
        self.store(pool, Ghost(before));
    }

    /// Starts reading the validator's total balance: takes the guard.
    ///
    /// Refused while another operation is under way on the validator.
    pub fn refresh_total_balance(&mut self, pool: &mut ValidatorPool) -> (r: Result<(), Error>)
        ensures
            old(self).executing ==> r == Err::<(), Error>(Error::ValidatorAlreadyExecutingAction),
            !old(self).executing ==> r is Ok,
            r is Err ==> *final(self) == *old(self) && final(pool)@ == old(pool)@,
            r is Ok ==> *final(self) == (Validator { executing: true, ..*old(self) }) && final(pool)@ == old(pool)@.saved(*final(self)),
            old(self).kept_in(old(pool)@) ==> final(self).kept_in(final(pool)@),
    {
        self.pre_execution(pool)
    }

    /// Rescales the base stake amount to `new_total_balance`, in the validator and in
    /// the pool's total. The validator is not written to the pool.
    fn sync_base_stake_amount(&mut self, pool: &mut ValidatorPool, new_total_balance: u128) -> (r:
        Result<(), Error>)
        ensures
            r is Ok <==> old(self).can_rescale(old(pool)@, new_total_balance),
            r is Err ==> r == Err::<(), Error>(Error::ArithmeticOverflow) && *final(self) == *old(self) && final(pool)@ == old(pool)@,
            r is Ok ==> *final(self) == (Validator {
                base_stake_amount: old(self).rescaled_base(new_total_balance) as u128,
                ..*old(self)
            }) && final(pool)@ == old(pool)@.with_total_base(
                old(self).rescaled_total_base(old(pool)@, new_total_balance) as u128,
            ),
    {
        match self.rescale(pool, new_total_balance) {
            Some((base, total)) => {
                self.base_stake_amount = base;
                pool.total_base_stake_amount = total;
                Ok(())
            },
            None => Err(Error::ArithmeticOverflow),
        }
    }

    /// Writes the validator to the pool after its base stake amount was
    /// rescaled and the pool's total with it.
    fn store_rescaled(
        &self,
        pool: &mut ValidatorPool,
        Ghost(before): Ghost<Validator>,
        Ghost(pool_before): Ghost<PoolView>,
    )
        requires
            before.account_id == self.account_id,
            before.weight == self.weight,
            old(pool)@.validators == pool_before.validators,
            old(pool)@.total_weight == pool_before.total_weight,
            old(pool)@.total_base_stake_amount == pool_before.total_base_stake_amount
                - before.base_stake_amount + self.base_stake_amount,
        ensures
            final(pool)@ == pool_before.saved(*self).with_total_base(
                old(pool)@.total_base_stake_amount,
            ),
            before.kept_in(pool_before) ==> self.kept_in(final(pool)@),
    {
        proof {
            if before.kept_in(pool_before) {
                lemma_holds_index(pool_before, before);
                lemma_saved_keeps_wf(pool_before, *self, pool@.total_base_stake_amount);
            }
            assert(pool@.has_id(self.account_id@) == pool_before.has_id(self.account_id@));
            assert(pool@.index_of(self.account_id@) == pool_before.index_of(self.account_id@));
        }
        pool.save_validator(self);
    }

    /// Books the total balance `new_total_balance` that the validator
    /// reported: gives the guard back, rescales the base stake amount, and
    /// takes as staked what is not unstaked.
    ///
    /// Refused when the new total is less than the unstaked amount, or when
    /// the base stake amount cannot be rescaled.
    pub fn on_new_total_balance(&mut self, pool: &mut ValidatorPool, new_total_balance: u128) -> (r:
        Result<(), Error>)
        ensures
            r is Ok <==> new_total_balance >= old(self).unstaked_amount && old(self).can_rescale(
                old(pool)@,
                new_total_balance,
            ),
            r is Err ==> r == Err::<(), Error>(Error::ArithmeticOverflow) && *final(self) == *old(self) && final(pool)@ == old(pool)@,
            r is Ok ==> *final(self) == (Validator {
                executing: false,
                base_stake_amount: old(self).rescaled_base(new_total_balance) as u128,
                staked_amount: (new_total_balance - old(self).unstaked_amount) as u128,
                ..*old(self)
            }) && final(pool)@ == old(pool)@.saved(*final(self)).with_total_base(
                old(self).rescaled_total_base(old(pool)@, new_total_balance) as u128,
            ),
            old(self).kept_in(old(pool)@) ==> final(self).kept_in(final(pool)@),
    {
        if new_total_balance < self.unstaked_amount {
            return Err(Error::ArithmeticOverflow);
        }
        let ghost before = *self;
        let ghost pool_before = pool@;
        match self.sync_base_stake_amount(pool, new_total_balance) {
            Ok(()) => {},
            Err(e) => {
                return Err(e);
            },
        }
        self.executing = false;
        self.staked_amount = new_total_balance - self.unstaked_amount;
        self.store_rescaled(pool, Ghost(before), Ghost(pool_before));
        Ok(())
    }

    /// Gives the guard back after the total balance could not be read.
    pub fn on_get_account_total_balance_failed(&mut self, pool: &mut ValidatorPool)
        ensures
            *final(self) == (Validator { executing: false, ..*old(self) }),
            final(pool)@ == old(pool)@.saved(*final(self)),
            old(self).kept_in(old(pool)@) ==> final(self).kept_in(final(pool)@),
    {
        self.post_execution(pool);
    }

    /// Starts reading the validator's balances. After a stake or an unstake
    /// (`post_action`) the guard must be taken already; otherwise it is taken now.
    pub fn sync_account_balance(&mut self, pool: &mut ValidatorPool, post_action: bool) -> (r:
        Result<(), Error>)
        ensures
            post_action && !old(self).executing ==> r == Err::<(), Error>(
                Error::ValidatorSyncBalanceNotExpected,
            ),
            !post_action && old(self).executing ==> r == Err::<(), Error>(
                Error::ValidatorAlreadyExecutingAction,
            ),
            post_action == old(self).executing ==> r is Ok,
            r is Err || post_action ==> *final(self) == *old(self) && final(pool)@ == old(pool)@,
            r is Ok && !post_action ==> *final(self) == (Validator {
                executing: true,
                ..*old(self)
            }) && final(pool)@ == old(pool)@.saved(*final(self)),
            old(self).kept_in(old(pool)@) ==> final(self).kept_in(final(pool)@),
    {
        if post_action {
            if self.executing {
                Ok(())
            } else {
                Err(Error::ValidatorSyncBalanceNotExpected)
            }
        } else {
            self.pre_execution(pool)
        }
    }

    /// Books the balances that the validator reported: gives the guard back,
    /// rescales the base stake amount to their sum, and takes them over.
    ///
    /// Refused when their sum does not fit, or when the base stake amount
    /// cannot be rescaled.
    pub fn on_sync_account_balance_success(
        &mut self,
        pool: &mut ValidatorPool,
        staked_balance: u128,
        unstaked_balance: u128,
    ) -> (r: Result<(), Error>)
        ensures
            r is Ok <==> staked_balance + unstaked_balance <= u128::MAX && old(self).can_rescale(
                old(pool)@,
                (staked_balance + unstaked_balance) as u128,
            ),
            r is Err ==> r == Err::<(), Error>(Error::ArithmeticOverflow) && *final(self) == *old(self) && final(pool)@ == old(pool)@,
            r is Ok ==> *final(self) == (Validator {
                executing: false,
                base_stake_amount: old(self).rescaled_base(
                    (staked_balance + unstaked_balance) as u128,
                ) as u128,
                staked_amount: staked_balance,
                unstaked_amount: unstaked_balance,
                ..*old(self)
            }) && final(pool)@ == old(pool)@.saved(*final(self)).with_total_base(
                old(self).rescaled_total_base(
                    old(pool)@,
                    (staked_balance + unstaked_balance) as u128,
                ) as u128,
            ),
            old(self).kept_in(old(pool)@) ==> final(self).kept_in(final(pool)@),
    {
        let new_total_balance = match staked_balance.checked_add(unstaked_balance) {
            Some(t) => t,
            None => {
                return Err(Error::ArithmeticOverflow);
            },
        };
        let ghost before = *self;
        let ghost pool_before = pool@;
        match self.sync_base_stake_amount(pool, new_total_balance) {
            Ok(()) => {},
            Err(e) => {
                return Err(e);
            },
        }
        self.executing = false;
        self.staked_amount = staked_balance;
        self.unstaked_amount = unstaked_balance;
        self.store_rescaled(pool, Ghost(before), Ghost(pool_before));
        Ok(())
    }

    /// Gives the guard back after the balances could not be read, or were too
    /// far from what is booked.
    pub fn on_sync_account_balance_failed(&mut self, pool: &mut ValidatorPool)
        ensures
            *final(self) == (Validator { executing: false, ..*old(self) }),
            final(pool)@ == old(pool)@.saved(*final(self)),
            old(self).kept_in(old(pool)@) ==> final(self).kept_in(final(pool)@),
    {
        self.post_execution(pool);
    }

    /// Starts a withdrawal of `amount` at `current_epoch`: takes the guard and
    /// takes the amount out of the unstaked amount.
    ///
    /// Refused while another operation is under way on the validator, when
    /// its unstaked amount is less than `amount`, and while it is in its
    /// release period.
    pub fn withdraw(&mut self, pool: &mut ValidatorPool, amount: u128, current_epoch: EpochHeight) -> (r:
        Result<(), Error>)
        ensures
            old(self).executing ==> r == Err::<(), Error>(Error::ValidatorAlreadyExecutingAction),
            !old(self).executing && old(self).unstaked_amount < amount ==> r == Err::<(), Error>(
                Error::NoEnoughWithdrawBalance,
            ),
            !old(self).executing && old(self).unstaked_amount >= amount && old(self).spec_pending_release(current_epoch) ==> r == Err::<(), Error>(
                Error::ValidatorWithdrawWhenLocked,
            ),
            !old(self).executing && old(self).unstaked_amount >= amount && !old(self).spec_pending_release(current_epoch) ==> r is Ok,
            r is Err ==> *final(self) == *old(self) && final(pool)@ == old(pool)@,
            r is Ok ==> *final(self) == (Validator {
                executing: true,
                unstaked_amount: (old(self).unstaked_amount - amount) as u128,
                ..*old(self)
            }) && final(pool)@ == old(pool)@.saved(*final(self)),
            old(self).kept_in(old(pool)@) ==> final(self).kept_in(final(pool)@),
    {
        if self.executing {
            return Err(Error::ValidatorAlreadyExecutingAction);
        }
        if self.unstaked_amount < amount {
            return Err(Error::NoEnoughWithdrawBalance);
        }
        if self.pending_release(current_epoch) {
            return Err(Error::ValidatorWithdrawWhenLocked);
        }
        let ghost before = *self;
        self.executing = true;
        self.unstaked_amount = self.unstaked_amount - amount;
        self.store(pool, Ghost(before));
        Ok(())
    }

    /// Gives the guard back after a withdrawal that went through.
    pub fn on_withdraw_success(&mut self, pool: &mut ValidatorPool)
        ensures
            *final(self) == (Validator { executing: false, ..*old(self) }),
            final(pool)@ == old(pool)@.saved(*final(self)),
            old(self).kept_in(old(pool)@) ==> final(self).kept_in(final(pool)@),
    {
        self.post_execution(pool);
    }

    /// Gives the guard back after a withdrawal of `amount` that failed, and
    /// puts the amount back into the unstaked amount.
    ///
    /// Refused when the unstaked amount would no longer fit.
    pub fn on_withdraw_failed(&mut self, pool: &mut ValidatorPool, amount: u128) -> (r: Result<
        (),
        Error,
    >)
        ensures
            r is Ok <==> old(self).unstaked_amount + amount <= u128::MAX,
            r is Err ==> r == Err::<(), Error>(Error::ArithmeticOverflow) && *final(self) == *old(self) && final(pool)@ == old(pool)@,
            r is Ok ==> *final(self) == (Validator {
                executing: false,
                unstaked_amount: (old(self).unstaked_amount + amount) as u128,
                ..*old(self)
            }) && final(pool)@ == old(pool)@.saved(*final(self)),
            old(self).kept_in(old(pool)@) ==> final(self).kept_in(final(pool)@),
    {
        let unstaked = match self.unstaked_amount.checked_add(amount) {
            Some(s) => s,
            None => {
                return Err(Error::ArithmeticOverflow);
            },
        };
        let ghost before = *self;
        self.executing = false;
        self.unstaked_amount = unstaked;
        self.store(pool, Ghost(before));
        Ok(())
    }

    /// Marks the validator as being drained, or no longer so.
    pub fn set_draining(&mut self, pool: &mut ValidatorPool, draining: bool)
        ensures
            *final(self) == (Validator { draining, ..*old(self) }),
            final(pool)@ == old(pool)@.saved(*final(self)),
            old(self).kept_in(old(pool)@) ==> final(self).kept_in(final(pool)@),
    {
        let ghost before = *self;
        self.draining = draining;
        self.store(pool, Ghost(before));
    }
}

} // verus!
