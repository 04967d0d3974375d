//! The state of the pool and the price of a share.
//!
//! A share is a claim on the staked amount of the pool. Its price is the total
//! staked amount over the total number of shares. Shares are minted rounding
//! down and burnt rounding up, so the price never falls below one.

use vstd::prelude::*;
use crate::errors::Error;
use crate::math::{
    lemma_ceil_from_floor, lemma_mul_div_bound, mul_div_ceil, mul_div_floor, mul_div_rem,
};
use crate::utils::{EpochHeight, INIT_STAKING_AMOUNT, INIT_STORAGE_OCCUPY, MAX_BENEFICIARIES};
use crate::validator_pool::{PoolView, ValidatorPool};
use vstd::arithmetic::div_mod::lemma_fundamental_div_mod;

verus! {

/// A number of shares.
pub type ShareBalance = u128;

/// An account that receives a part of the rewards, in basis points.
#[derive(Debug)]
pub struct Beneficiary {
    pub account_id: String,
    pub bps: u32,
}

impl Clone for Beneficiary {
    fn clone(&self) -> (copy: Self)
        ensures
            copy == *self,
    {
        Beneficiary { account_id: self.account_id.clone(), bps: self.bps }
    }
}

/// The state of the pool.
pub struct Contract {
    /// The number of shares that exist.
    pub total_share_amount: u128,
    /// The amount that the participants have staked, rewards included.
    pub total_staked_near_amount: u128,
    /// The beneficiaries of the rewards, in the order in which they are paid.
    pub beneficiaries: Vec<Beneficiary>,
    pub validator_pool: ValidatorPool,
    /// What was asked to be staked since the last settlement.
    pub epoch_requested_stake_amount: u128,
    /// What was asked to be unstaked since the last settlement.
    pub epoch_requested_unstake_amount: u128,
    /// What is left to stake on validators.
    pub stake_amount_to_settle: u128,
    /// What is left to unstake from validators.
    pub unstake_amount_to_settle: u128,
    /// The epoch of the last settlement.
    pub last_settlement_epoch: EpochHeight,
    pub last_settlement_initiated_epoch: EpochHeight,
}

/// What a `Contract` holds, as a mathematical value.
pub struct ContractView {
    pub total_share_amount: u128,
    pub total_staked_near_amount: u128,
    pub beneficiaries: Seq<Beneficiary>,
    pub validator_pool: PoolView,
    pub epoch_requested_stake_amount: u128,
    pub epoch_requested_unstake_amount: u128,
    pub stake_amount_to_settle: u128,
    pub unstake_amount_to_settle: u128,
    pub last_settlement_epoch: EpochHeight,
    pub last_settlement_initiated_epoch: EpochHeight,
}

impl View for Contract {
    type V = ContractView;

    open spec fn view(&self) -> ContractView {
        ContractView {
            total_share_amount: self.total_share_amount,
            total_staked_near_amount: self.total_staked_near_amount,
            beneficiaries: self.beneficiaries@,
            validator_pool: self.validator_pool@,
            epoch_requested_stake_amount: self.epoch_requested_stake_amount,
            epoch_requested_unstake_amount: self.epoch_requested_unstake_amount,
            stake_amount_to_settle: self.stake_amount_to_settle,
            unstake_amount_to_settle: self.unstake_amount_to_settle,
            last_settlement_epoch: self.last_settlement_epoch,
            last_settlement_initiated_epoch: self.last_settlement_initiated_epoch,
        }
    }
}

/// The sum of the basis points of `s`.
pub open spec fn sum_bps(s: Seq<Beneficiary>) -> int
    decreases s.len(),
{
    if s.len() == 0 {
        0
    } else {
        sum_bps(s.drop_last()) + s.last().bps
    }
}

/// The shares that `amount` is worth at the price of `total_staked` over `total_shares`, rounded down.
pub open spec fn shares_rounded_down(total_shares: u128, total_staked: u128, amount: u128) -> int {
    mul_div_floor(total_shares as int, amount as int, total_staked as int)
}

/// The shares that `amount` is worth at the price of `total_staked` over `total_shares`, rounded up.
pub open spec fn shares_rounded_up(total_shares: u128, total_staked: u128, amount: u128) -> int {
    mul_div_ceil(total_shares as int, amount as int, total_staked as int)
}

/// The amount that `shares` are worth at the price of `total_staked` over `total_shares`, rounded down.
pub open spec fn stake_rounded_down(total_shares: u128, total_staked: u128, shares: u128) -> int {
    mul_div_floor(total_staked as int, shares as int, total_shares as int)
}

impl ContractView {
    /// No two beneficiaries have the same account id, there are no more of
    /// them than allowed, and their basis points are no more than all there are.
    pub open spec fn beneficiaries_wf(self) -> bool {
        &&& self.beneficiaries.len() <= MAX_BENEFICIARIES
        &&& sum_bps(self.beneficiaries) <= 10_000
        &&& forall|i: int, j: int|
            0 <= i < j < self.beneficiaries.len() ==> self.beneficiaries[i].account_id@
                != self.beneficiaries[j].account_id@
    }

    /// The invariant of the state.
    pub open spec fn wf(self) -> bool {
        self.validator_pool.wf() && self.beneficiaries_wf()
    }

    /// A share is worth one unit of the staked amount at least.
    pub open spec fn price_at_least_one(self) -> bool {
        self.total_share_amount <= self.total_staked_near_amount
    }

    /// What `num_shares_from_staked_amount_rounded_down` returns.
    pub open spec fn shares_for_stake(self, amount: u128) -> Result<u128, Error> {
        let shares = shares_rounded_down(
            self.total_share_amount,
            self.total_staked_near_amount,
            amount,
        );
        if self.total_staked_near_amount == 0 {
            Err(Error::NonPositiveTotalStakedBalance)
        } else if shares > u128::MAX {
            Err(Error::ArithmeticOverflow)
        } else {
            Ok(shares as u128)
        }
    }

    /// What `num_shares_from_staked_amount_rounded_up` returns.
    pub open spec fn shares_for_unstake(self, amount: u128) -> Result<u128, Error> {
        let shares = shares_rounded_up(
            self.total_share_amount,
            self.total_staked_near_amount,
            amount,
        );
        if self.total_staked_near_amount == 0 {
            Err(Error::NonPositiveTotalStakedBalance)
        } else if shares > u128::MAX {
            Err(Error::ArithmeticOverflow)
        } else {
            Ok(shares as u128)
        }
    }

    /// What `staked_amount_from_num_shares_rounded_down` returns.
    pub open spec fn stake_for_shares(self, num_shares: u128) -> Result<u128, Error> {
        let amount = stake_rounded_down(
            self.total_share_amount,
            self.total_staked_near_amount,
            num_shares,
        );
        if self.total_share_amount == 0 {
            Err(Error::NonPositiveTotalStakeShares)
        } else if amount > u128::MAX {
            Err(Error::ArithmeticOverflow)
        } else {
            Ok(amount as u128)
        }
    }
}

/// While a share is worth one unit at least, an amount is worth no more
/// shares than it has units, rounded either way.
pub proof fn lemma_shares_at_most_amount(total_shares: u128, total_staked: u128, amount: u128)
    requires
        total_shares <= total_staked,
        total_staked > 0,
    ensures
        0 <= shares_rounded_down(total_shares, total_staked, amount) <= shares_rounded_up(
            total_shares,
            total_staked,
            amount,
        ) <= amount,
{
    let t = total_shares as int;
    let s = total_staked as int;
    let a = amount as int;
    lemma_mul_div_bound(a, t, s);
    assert(0 <= t * a) by (nonlinear_arith)
        requires
            0 <= t,
            0 <= a,
    ;
    lemma_ceil_from_floor(t * a, s);
    if (t * a) % s != 0 {
        // the quotient is below `a`, since `a` itself would leave no remainder
        lemma_fundamental_div_mod(t * a, s);
        let q = (t * a) / s;
        if q >= a {
            assert(s * q >= s * a && s * a >= t * a) by (nonlinear_arith)
                requires
                    q >= a,
                    0 < s,
                    0 <= t <= s,
                    0 <= a,
            ;
        }
    }
}

impl Contract {
    /// The invariant of the state, on the state itself.
    pub open spec fn wf(&self) -> bool {
        self@.wf()
    }

    /// The pool as it is created: it stakes the initial amount for itself, one
    /// share for each unit of it, out of a balance that also covers its storage.
    ///
    /// Refused when `account_balance` does not cover both.
    pub fn new(account_balance: u128) -> (r: Result<Contract, Error>)
        ensures
            account_balance < INIT_STORAGE_OCCUPY + INIT_STAKING_AMOUNT ==> r is Err && r->Err_0
                == Error::NoEnoughInitDeposit,
            account_balance >= INIT_STORAGE_OCCUPY + INIT_STAKING_AMOUNT ==> r is Ok,
            r matches Ok(c) ==> c.wf() && c@ == (ContractView {
                total_share_amount: INIT_STAKING_AMOUNT,
                total_staked_near_amount: INIT_STAKING_AMOUNT,
                beneficiaries: Seq::<Beneficiary>::empty(),
                validator_pool: PoolView {
                    validators: Seq::empty(),
                    total_weight: 0,
                    total_base_stake_amount: 0,
                },
                epoch_requested_stake_amount: INIT_STAKING_AMOUNT,
                epoch_requested_unstake_amount: 0,
                stake_amount_to_settle: 0,
                unstake_amount_to_settle: 0,
                last_settlement_epoch: 0,
                last_settlement_initiated_epoch: 0,
            }),
    {
        if account_balance < INIT_STORAGE_OCCUPY + INIT_STAKING_AMOUNT {
            return Err(Error::NoEnoughInitDeposit);
        }
        let c = Contract {
            total_share_amount: INIT_STAKING_AMOUNT,
            total_staked_near_amount: INIT_STAKING_AMOUNT,
            beneficiaries: Vec::new(),
            validator_pool: ValidatorPool::new(),
            epoch_requested_stake_amount: INIT_STAKING_AMOUNT,
            epoch_requested_unstake_amount: 0,
            stake_amount_to_settle: 0,
            unstake_amount_to_settle: 0,
            last_settlement_epoch: 0,
            last_settlement_initiated_epoch: 0,
        };
        proof {
            assert(c@.validator_pool.validators =~= Seq::empty());
            assert(c@.beneficiaries =~= Seq::empty());
        }
        Ok(c)
    }

    /// Adds `amount` to the staked amount without minting shares, and to what
    /// is to be staked in this epoch.
    ///
    /// Refused when either sum would no longer fit.
    pub fn donate(&mut self, amount: u128) -> (r: Result<(), Error>)
        ensures
            r is Ok <==> old(self)@.total_staked_near_amount + amount <= u128::MAX && old(self)@.epoch_requested_stake_amount + amount <= u128::MAX,
            r is Err ==> r == Err::<(), Error>(Error::ArithmeticOverflow) && final(self)@ == old(self)@,
            r is Ok ==> final(self)@ == (ContractView {
                total_staked_near_amount: (old(self)@.total_staked_near_amount + amount) as u128,
                epoch_requested_stake_amount: (old(self)@.epoch_requested_stake_amount
                    + amount) as u128,
                ..old(self)@
            }),
            old(self)@.price_at_least_one() ==> final(self)@.price_at_least_one(),
    {
        let staked = match self.total_staked_near_amount.checked_add(amount) {
            Some(s) => s,
            None => {
                return Err(Error::ArithmeticOverflow);
            },
        };
        let requested = match self.epoch_requested_stake_amount.checked_add(amount) {
            Some(s) => s,
            None => {
                return Err(Error::ArithmeticOverflow);
            },
        };
        self.total_staked_near_amount = staked;
        self.epoch_requested_stake_amount = requested;
        Ok(())
    }

    /// The number of shares that `amount` is worth, rounded down: what a stake of `amount` mints.
    ///
    /// Refused when nothing is staked, or when the number does not fit.
    pub fn num_shares_from_staked_amount_rounded_down(&self, amount: u128) -> (r: Result<
        ShareBalance,
        Error,
    >)
        ensures
            r == self@.shares_for_stake(amount),
    {
        if self.total_staked_near_amount == 0 {
            return Err(Error::NonPositiveTotalStakedBalance);
        }
        match mul_div_rem(self.total_share_amount, amount, self.total_staked_near_amount) {
            Some((q, _)) => Ok(q),
            None => Err(Error::ArithmeticOverflow),
        }
    }

    /// The number of shares that `amount` is worth, rounded up: what an unstake of `amount` burns.
    ///
    /// Refused when nothing is staked, or when the number does not fit.
    pub fn num_shares_from_staked_amount_rounded_up(&self, amount: u128) -> (r: Result<
        ShareBalance,
        Error,
    >)
        ensures
            r == self@.shares_for_unstake(amount),
    {
        if self.total_staked_near_amount == 0 {
            return Err(Error::NonPositiveTotalStakedBalance);
        }
        proof {
            let x = self.total_share_amount * amount;
            assert(0 <= x) by (nonlinear_arith)
                requires
                    x == self.total_share_amount * amount,
            ;
            lemma_ceil_from_floor(x, self.total_staked_near_amount as int);
        }
        match mul_div_rem(self.total_share_amount, amount, self.total_staked_near_amount) {
            Some((q, m)) => {
                if m == 0 {
                    Ok(q)
                } else if q == u128::MAX {
                    Err(Error::ArithmeticOverflow)
                } else {
                    Ok(q + 1)
                }
            },
            None => Err(Error::ArithmeticOverflow),
        }
    }

    /// The amount that `num_shares` are worth, rounded down.
    ///
    /// Refused when there are no shares, or when the amount does not fit.
    pub fn staked_amount_from_num_shares_rounded_down(&self, num_shares: ShareBalance) -> (r:
        Result<u128, Error>)
        ensures
            r == self@.stake_for_shares(num_shares),
    {
        if self.total_share_amount == 0 {
            return Err(Error::NonPositiveTotalStakeShares);
        }
        match mul_div_rem(self.total_staked_near_amount, num_shares, self.total_share_amount) {
            Some((q, _)) => Ok(q),
            None => Err(Error::ArithmeticOverflow),
        }
    }

    /// Books `shares` new shares.
    ///
    /// Refused for no shares, and when the number of shares would no longer fit.
    pub fn mint_lst(&mut self, shares: u128) -> (r: Result<(), Error>)
        ensures
            shares == 0 ==> r == Err::<(), Error>(Error::NonPositiveShares),
            shares > 0 && old(self)@.total_share_amount + shares > u128::MAX ==> r == Err::<
                (),
                Error,
            >(Error::ArithmeticOverflow),
            shares > 0 && old(self)@.total_share_amount + shares <= u128::MAX ==> r is Ok,
            r is Err ==> final(self)@ == old(self)@,
            r is Ok ==> final(self)@ == (ContractView {
                total_share_amount: (old(self)@.total_share_amount + shares) as u128,
                ..old(self)@
            }),
    {
        if shares == 0 {
            return Err(Error::NonPositiveShares);
        }
        match self.total_share_amount.checked_add(shares) {
            Some(total) => {
                self.total_share_amount = total;
                Ok(())
            },
            None => Err(Error::ArithmeticOverflow),
        }
    }

    /// Books that `shares` shares were burnt, out of the `share_balance` of one account.
    ///
    /// Refused for no shares, for more shares than the account has, and for
    /// more shares than exist.
    pub fn burn_lst(&mut self, share_balance: u128, shares: u128) -> (r: Result<(), Error>)
        ensures
            shares == 0 ==> r == Err::<(), Error>(Error::NonPositiveShares),
            shares > 0 && shares > share_balance ==> r == Err::<(), Error>(Error::NoEnoughShares),
            0 < shares <= share_balance && shares > old(self)@.total_share_amount ==> r == Err::<
                (),
                Error,
            >(Error::ArithmeticOverflow),
            0 < shares <= share_balance && shares <= old(self)@.total_share_amount ==> r is Ok,
            r is Err ==> final(self)@ == old(self)@,
            r is Ok ==> final(self)@ == (ContractView {
                total_share_amount: (old(self)@.total_share_amount - shares) as u128,
                ..old(self)@
            }),
            old(self)@.price_at_least_one() ==> final(self)@.price_at_least_one(),
    {
        if shares == 0 {
            return Err(Error::NonPositiveShares);
        }
        if shares > share_balance {
            return Err(Error::NoEnoughShares);
        }
        match self.total_share_amount.checked_sub(shares) {
            Some(total) => {
                self.total_share_amount = total;
                Ok(())
            },
            None => Err(Error::ArithmeticOverflow),
        }
    }
}

} // verus!
