//! The amount that each validator should hold, and the choice of the
//! validator to stake to or to unstake from.

use vstd::prelude::*;
use crate::math::{lemma_mul_div_bound, lemma_mul_div_monotonic, mul_div_floor, mul_div_rem};
use crate::utils::{min3, spec_min3, EpochHeight, NUM_EPOCHS_TO_UNLOCK, ONE_NEAR};
use crate::validator::{CandidateValidator, Validator};
use crate::validator_pool::{lemma_sums_bound, PoolView, ValidatorPool};
use vstd::arithmetic::div_mod::{lemma_div_multiples_vanish, lemma_fundamental_div_mod};

verus! {

/// A remainder of a stake smaller than this is staked along with the rest.
pub const STAKE_SMALL_CHANGE_AMOUNT: u128 = ONE_NEAR;

impl PoolView {
    /// The part of a validator's target that comes from its base stake
    /// amount: the base stake amount itself, or, while the pool holds less
    /// than all base stake amounts together, the same fraction of it as the
    /// pool holds of them.
    pub open spec fn base_component(self, total_staked: u128, v: Validator) -> int {
        if total_staked >= self.total_base_stake_amount {
            v.base_stake_amount as int
        } else {
            mul_div_floor(
                v.base_stake_amount as int,
                total_staked as int,
                self.total_base_stake_amount as int,
            )
        }
    }

    /// The part of a validator's target that comes from its weight: its share
    /// by weight of what the pool holds above all base stake amounts.
    pub open spec fn dynamic_component(self, total_staked: u128, v: Validator) -> int {
        if v.weight == 0 || total_staked <= self.total_base_stake_amount {
            0
        } else {
            mul_div_floor(
                total_staked - self.total_base_stake_amount,
                v.weight as int,
                self.total_weight as int,
            )
        }
    }

    /// The amount that validator `v` should hold when the pool holds `total_staked`.
    pub open spec fn target_stake_amount(self, total_staked: u128, v: Validator) -> int {
        self.base_component(total_staked, v) + self.dynamic_component(total_staked, v)
    }

    /// The target of the validator at place `i`.
    pub open spec fn target_at(self, total_staked: u128, i: int) -> int {
        self.target_stake_amount(total_staked, self.validators[i])
    }

    /// By how much the validator at place `i` is under its target (negative when it is over).
    pub open spec fn stake_delta(self, total_staked: u128, i: int) -> int {
        self.target_at(total_staked, i) - self.validators[i].staked_amount
    }

    /// Whether the validator at place `i` is the one to stake to: it is under
    /// its target by more than every validator before it and by no less than
    /// every validator after it.
    pub open spec fn is_stake_candidate(self, total_staked: u128, i: int) -> bool {
        &&& 0 <= i < self.validators.len()
        &&& self.stake_delta(total_staked, i) > 0
        &&& forall|j: int|
            0 <= j < self.validators.len() ==> #[trigger] self.stake_delta(total_staked, j)
                <= self.stake_delta(total_staked, i) && (j < i ==> self.stake_delta(
                total_staked,
                j,
            ) < self.stake_delta(total_staked, i))
    }

    /// The place of the validator to stake to, if any validator is under its target.
    pub open spec fn stake_candidate(self, total_staked: u128) -> Option<int> {
        if exists|i: int| self.is_stake_candidate(total_staked, i) {
            Some(choose|i: int| self.is_stake_candidate(total_staked, i))
        } else {
            None
        }
    }
}

/// The amount to stake to a validator that is `delta` under its target when
/// `amount` is to be staked in all: the smaller of the two, or all of `amount`
/// when less than the small change would be left.
pub open spec fn stake_amount(amount: u128, delta: int) -> int {
    let part = if amount <= delta {
        amount as int
    } else {
        delta
    };
    if part > 0 && amount - part < STAKE_SMALL_CHANGE_AMOUNT {
        amount as int
    } else {
        part
    }
}

/// The target of a validator of the pool is what the pool holds at most.
pub proof fn lemma_target_bound(pool: PoolView, total_staked: u128, v: Validator)
    requires
        v.weight <= pool.total_weight,
        v.base_stake_amount <= pool.total_base_stake_amount,
    ensures
        0 <= pool.base_component(total_staked, v) <= v.base_stake_amount,
        0 <= pool.dynamic_component(total_staked, v),
        pool.target_stake_amount(total_staked, v) <= total_staked,
{
    if total_staked < pool.total_base_stake_amount {
        lemma_mul_div_bound(
            total_staked as int,
            v.base_stake_amount as int,
            pool.total_base_stake_amount as int,
        );
        lemma_mul_div_bound(
            v.base_stake_amount as int,
            total_staked as int,
            pool.total_base_stake_amount as int,
        );
    }
    if v.weight != 0 && total_staked > pool.total_base_stake_amount {
        lemma_mul_div_bound(
            total_staked - pool.total_base_stake_amount,
            v.weight as int,
            pool.total_weight as int,
        );
    }
}

/// At most one validator is the one to stake to.
pub proof fn lemma_stake_candidate_unique(pool: PoolView, total_staked: u128, i: int, j: int)
    requires
        pool.is_stake_candidate(total_staked, i),
        pool.is_stake_candidate(total_staked, j),
    ensures
        i == j,
{
}

/// What is staked to the chosen validator leaves it less than the small
/// change above its target, and is never more than what was to be staked.
pub proof fn lemma_stake_amount_bounds(amount: u128, delta: int)
    requires
        delta > 0,
    ensures
        0 <= stake_amount(amount, delta) <= amount,
        stake_amount(amount, delta) < delta + STAKE_SMALL_CHANGE_AMOUNT,
        amount > 0 ==> stake_amount(amount, delta) > 0,
        stake_amount(amount, delta) == amount || (stake_amount(amount, delta) == delta && amount
            - delta >= STAKE_SMALL_CHANGE_AMOUNT),
{
}

/// Without base stake amounts, the target of a validator is its share by
/// weight of what the pool holds.
pub proof fn lemma_target_without_base(pool: PoolView, total_staked: u128, v: Validator)
    requires
        pool.total_base_stake_amount == 0,
        v.base_stake_amount == 0,
        pool.total_weight > 0,
    ensures
        pool.target_stake_amount(total_staked, v) == mul_div_floor(
            total_staked as int,
            v.weight as int,
            pool.total_weight as int,
        ),
{
    if v.weight == 0 {
        assert(total_staked * 0 == 0);
    }
    if total_staked == 0 {
        assert(0 * v.weight == 0);
    }
}

impl ValidatorPool {
    /// The amount that `validator` should hold when the pool holds
    /// `total_staked_near_amount`: its base stake amount (cut down in
    /// proportion while the pool holds less than all base stake amounts), and
    /// its share by weight of what the pool holds above them.
    pub fn validator_target_stake_amount(
        &self,
        total_staked_near_amount: u128,
        validator: &Validator,
    ) -> (target: u128)
        requires
            validator.weight <= self@.total_weight,
            validator.base_stake_amount <= self@.total_base_stake_amount,
        ensures
            target == self@.target_stake_amount(total_staked_near_amount, *validator),
            target <= total_staked_near_amount,
    {
        proof {
            lemma_target_bound(self@, total_staked_near_amount, *validator);
        }
        let base_stake_amount = if total_staked_near_amount >= self.total_base_stake_amount {
            validator.base_stake_amount
        } else {
            match mul_div_rem(
                validator.base_stake_amount,
                total_staked_near_amount,
                self.total_base_stake_amount,
            ) {
                Some((q, _)) => q,
                None => 0,
            }
        };
        let dynamic_stake_amount = if validator.weight == 0 || total_staked_near_amount
            <= self.total_base_stake_amount {
            0
        } else {
            match mul_div_rem(
                total_staked_near_amount - self.total_base_stake_amount,
                validator.weight as u128,
                self.total_weight as u128,
            ) {
                Some((q, _)) => q,
                None => 0,
            }
        };
        base_stake_amount + dynamic_stake_amount
    }

    /// The target of the validator at place `i` of a well-formed pool.
    fn target_of(&self, total_staked_near_amount: u128, i: usize) -> (target: u128)
        requires
            self.wf(),
            i < self@.validators.len(),
        ensures
            target == self@.target_at(total_staked_near_amount, i as int),
            target <= total_staked_near_amount,
    {
        proof {
            lemma_sums_bound(self@.validators, i as int);
        }
        self.validator_target_stake_amount(total_staked_near_amount, &self.validators[i])
    }

    /// The validator to stake to when `amount` is to be staked and the pool
    /// holds `total_staked_near_amount`, with the amount to stake to it.
    ///
    /// It is the validator furthest under its target, the first of them when
    /// several are equally far; `None` when no validator is under its target.
    pub fn get_candidate_to_stake(&self, amount: u128, total_staked_near_amount: u128) -> (r:
        Option<CandidateValidator>)
        requires
            self.wf(),
        ensures
            r is None <==> self@.stake_candidate(total_staked_near_amount) is None,
            r is None <==> forall|j: int|
                0 <= j < self@.validators.len() ==> #[trigger] self@.stake_delta(
                    total_staked_near_amount,
                    j,
                ) <= 0,
            r matches Some(c) ==> {
                let i = self@.stake_candidate(total_staked_near_amount)->0;
                &&& self@.is_stake_candidate(total_staked_near_amount, i)
                &&& c.validator == self@.validators[i]
                &&& c.amount == stake_amount(
                    amount,
                    self@.stake_delta(total_staked_near_amount, i),
                )
                &&& c.amount <= amount
                &&& c.validator.staked_amount + c.amount < self@.target_at(
                    total_staked_near_amount,
                    i,
                ) + STAKE_SMALL_CHANGE_AMOUNT
                &&& c.amount == amount || c.validator.staked_amount + c.amount == self@.target_at(
                    total_staked_near_amount,
                    i,
                )
            },
    {
        let mut best: Option<usize> = None;
        let mut max_delta: u128 = 0;
        let mut k: usize = 0;
        while k < self.validators.len()
            invariant
                self.wf(),
                k <= self.validators.len(),
                best is None ==> max_delta == 0,
                forall|j: int|
                    0 <= j < k ==> #[trigger] self@.stake_delta(total_staked_near_amount, j)
                        <= max_delta,
                best matches Some(b) ==> {
                    &&& b < k
                    &&& max_delta > 0
                    &&& self@.stake_delta(total_staked_near_amount, b as int) == max_delta
                    &&& forall|j: int|
                        0 <= j < b ==> #[trigger] self@.stake_delta(total_staked_near_amount, j)
                            < max_delta
                },
            decreases self.validators.len() - k,
        {
            let target_amount = self.target_of(total_staked_near_amount, k);
            let staked = self.validators[k].staked_amount;
            if staked < target_amount {
                let delta = target_amount - staked;
                if delta > max_delta {
                    max_delta = delta;
                    best = Some(k);
                }
            }
            k += 1;
        }
        match best {
            Some(b) => {
                proof {
                    assert(self@.is_stake_candidate(total_staked_near_amount, b as int));
                    let i = self@.stake_candidate(total_staked_near_amount)->0;
                    lemma_stake_candidate_unique(self@, total_staked_near_amount, i, b as int);
                    lemma_stake_amount_bounds(amount, max_delta as int);
                }
                let mut amount_to_stake: u128 = if amount <= max_delta {
                    amount
                } else {
                    max_delta
                };
                if amount_to_stake > 0 && amount - amount_to_stake < STAKE_SMALL_CHANGE_AMOUNT {
                    amount_to_stake = amount;
                }
                Some(CandidateValidator { validator: self.validators[b].clone(), amount: amount_to_stake })
            },
            None => {
                proof {
                    assert forall|i: int| !self@.is_stake_candidate(total_staked_near_amount, i) by {
                        if 0 <= i < self@.validators.len() {
                            assert(self@.stake_delta(total_staked_near_amount, i) <= 0);
                        }
                    }
                }
                None
            },
        }
    }
}

/// Whether a validator with target `target_a` that holds `delta_a` above it is
/// unstaked from before one with `target_b` and `delta_b`: the one with the
/// larger ratio of delta to target goes first, of two with the same ratio the
/// one with the larger delta; a validator without a target goes after every
/// validator with one, and of two without a target the one with the larger
/// delta goes first.
pub open spec fn spec_drains_before(target_a: int, delta_a: int, target_b: int, delta_b: int) -> bool {
    if target_a == 0 && target_b == 0 {
        delta_a > delta_b
    } else if target_a == 0 {
        false
    } else if target_b == 0 {
        true
    } else {
        delta_a * target_b > delta_b * target_a || (delta_a * target_b == delta_b * target_a
            && delta_a > delta_b)
    }
}

proof fn lemma_cross_products(da: int, ta: int, db: int, tb: int, dc: int, tc: int)
    requires
        0 < ta,
        0 < tb,
        0 < tc,
        0 <= da,
        0 <= db,
        0 <= dc,
    ensures
        da * tb > db * ta && dc * tb <= db * tc ==> da * tc > dc * ta,
        da * tb >= db * ta && dc * tb < db * tc ==> da * tc > dc * ta,
        da * tb == db * ta && dc * tb == db * tc ==> da * tc == dc * ta,
{
    let x = da * tc;
    let y = dc * ta;
    assert((da * tb) * tc == x * tb && (db * ta) * tc == (db * tc) * ta && (dc * tb) * ta == y * tb)
        by (nonlinear_arith)
        requires
            x == da * tc,
            y == dc * ta,
    ;
    if da * tb > db * ta && dc * tb <= db * tc {
        assert((da * tb) * tc > (db * ta) * tc) by (nonlinear_arith)
            requires
                da * tb > db * ta,
                0 < tc,
        ;
        assert((dc * tb) * ta <= (db * tc) * ta) by (nonlinear_arith)
            requires
                dc * tb <= db * tc,
                0 < ta,
        ;
        assert(x > y) by (nonlinear_arith)
            requires
                x * tb > y * tb,
                0 < tb,
        ;
    }
    if da * tb >= db * ta && dc * tb < db * tc {
        assert((da * tb) * tc >= (db * ta) * tc) by (nonlinear_arith)
            requires
                da * tb >= db * ta,
                0 < tc,
        ;
        assert((dc * tb) * ta < (db * tc) * ta) by (nonlinear_arith)
            requires
                dc * tb < db * tc,
                0 < ta,
        ;
        assert(x > y) by (nonlinear_arith)
            requires
                x * tb > y * tb,
                0 < tb,
        ;
    }
    if da * tb == db * ta && dc * tb == db * tc {
        assert(x == y) by (nonlinear_arith)
            requires
                x * tb == y * tb,
                0 < tb,
        ;
    }
}

/// A validator that goes before `b` goes before every validator that does not go before `b`.
pub proof fn lemma_drains_before_transitive(ta: int, da: int, tb: int, db: int, tc: int, dc: int)
    requires
        0 <= ta,
        0 <= tb,
        0 <= tc,
        0 <= da,
        0 <= db,
        0 <= dc,
        spec_drains_before(ta, da, tb, db),
        !spec_drains_before(tc, dc, tb, db),
    ensures
        spec_drains_before(ta, da, tc, dc),
{
    if ta != 0 && tb != 0 && tc != 0 {
        lemma_cross_products(da, ta, db, tb, dc, tc);
    }
}

/// Whether a validator with `target_a` and `delta_a` is unstaked from before
/// one with `target_b` and `delta_b`.
pub fn drains_before(target_a: u128, delta_a: u128, target_b: u128, delta_b: u128) -> (before: bool)
    ensures
        before == spec_drains_before(
            target_a as int,
            delta_a as int,
            target_b as int,
            delta_b as int,
        ),
{
    if target_a == 0 && target_b == 0 {
        delta_a > delta_b
    } else if target_a == 0 {
        false
    } else if target_b == 0 {
        true
    } else {
        let ghost x: int = delta_a * target_b;
        let ghost y: int = delta_b * target_a;
        proof {
            lemma_fundamental_div_mod(x, target_a as int);
        }
        match mul_div_rem(delta_a, target_b, target_a) {
            None => {
                proof {
                    let q = x / (target_a as int);
                    assert(target_a * q > y) by (nonlinear_arith)
                        requires
                            q > delta_b,
                            target_a > 0,
                            y == delta_b * target_a,
                    ;
                }
                true
            },
            Some((q, m)) => {
                proof {
                    assert(q > delta_b ==> target_a * q >= y + target_a) by (nonlinear_arith)
                        requires
                            target_a > 0,
                            y == delta_b * target_a,
                    ;
                    assert(q < delta_b ==> target_a * q + target_a <= y) by (nonlinear_arith)
                        requires
                            target_a > 0,
                            y == delta_b * target_a,
                    ;
                    assert(q == delta_b ==> target_a * q == y) by (nonlinear_arith)
                        requires
                            y == delta_b * target_a,
                    ;
                }
                if q > delta_b {
                    true
                } else if q < delta_b {
                    false
                } else {
                    m > 0 || delta_a > delta_b
                }
            },
        }
    }
}

impl PoolView {
    /// By how much the validator at place `i` is over its target (negative when it is under).
    pub open spec fn unstake_delta(self, total_staked: u128, i: int) -> int {
        self.validators[i].staked_amount - self.target_at(total_staked, i)
    }

    /// Whether the validator at place `i` can be unstaked from: it is not in
    /// its release period and holds more than its target.
    pub open spec fn can_unstake(self, total_staked: u128, epoch: EpochHeight, i: int) -> bool {
        &&& 0 <= i < self.validators.len()
        &&& !self.validators[i].spec_pending_release(epoch)
        &&& self.unstake_delta(total_staked, i) > 0
    }

    /// Whether the validator at place `i` can give all of `amount` by itself.
    pub open spec fn fits(self, total_staked: u128, epoch: EpochHeight, amount: u128, i: int) -> bool {
        self.can_unstake(total_staked, epoch, i) && self.unstake_delta(total_staked, i) >= amount
    }

    /// Whether the validator at place `i` is the one to take all of `amount`
    /// from: of those that can give it by themselves, it is the least over its
    /// target, and the first of those that are equally little over.
    pub open spec fn is_exact_fit(
        self,
        total_staked: u128,
        epoch: EpochHeight,
        amount: u128,
        i: int,
    ) -> bool {
        &&& self.fits(total_staked, epoch, amount, i)
        &&& forall|j: int| #[trigger]
            self.fits(total_staked, epoch, amount, j) ==> self.unstake_delta(total_staked, i)
                <= self.unstake_delta(total_staked, j) && (j < i ==> self.unstake_delta(
                total_staked,
                i,
            ) < self.unstake_delta(total_staked, j))
    }

    /// Whether the validator at place `i` is unstaked from before the one at place `j`.
    pub open spec fn drains_before_at(self, total_staked: u128, i: int, j: int) -> bool {
        spec_drains_before(
            self.target_at(total_staked, i),
            self.unstake_delta(total_staked, i),
            self.target_at(total_staked, j),
            self.unstake_delta(total_staked, j),
        )
    }

    /// Whether the validator at place `i` is the first in the order of
    /// unstaking: no validator that can be unstaked from goes before it, and
    /// it goes before each of those that stand before it in the pool.
    pub open spec fn is_top_ratio(self, total_staked: u128, epoch: EpochHeight, i: int) -> bool {
        &&& self.can_unstake(total_staked, epoch, i)
        &&& forall|j: int| #[trigger]
            self.can_unstake(total_staked, epoch, j) ==> !self.drains_before_at(total_staked, j, i)
                && (j < i ==> self.drains_before_at(total_staked, i, j))
    }

    /// The staked amount that is left to validator `v` in any case: its base
    /// stake amount, or its share of what the pool holds when that is less.
    pub open spec fn guaranteed_floor(self, total_staked: u128, v: Validator) -> int {
        let share = if self.total_base_stake_amount == 0 {
            0
        } else {
            mul_div_floor(
                v.base_stake_amount as int,
                total_staked as int,
                self.total_base_stake_amount as int,
            )
        };
        if share <= v.base_stake_amount {
            share
        } else {
            v.base_stake_amount as int
        }
    }

    /// The amount to unstake from the validator at place `i` when it cannot
    /// give all of `amount`: the smallest of `amount`, of the larger of half
    /// its target and what it holds above its target, and of what it holds
    /// above its guaranteed floor.
    pub open spec fn partial_unstake_amount(self, total_staked: u128, amount: u128, i: int) -> int {
        let v = self.validators[i];
        let target = self.target_at(total_staked, i);
        let delta = self.unstake_delta(total_staked, i);
        let above_floor = v.staked_amount - self.guaranteed_floor(total_staked, v);
        spec_min3(
            amount as int,
            if target / 2 >= delta {
                target / 2
            } else {
                delta
            },
            if above_floor >= 0 {
                above_floor
            } else {
                0
            },
        )
    }

    /// The place of the validator to unstake from and the amount to unstake
    /// from it, when `amount` is to be unstaked in all: the exact fit when there
    /// is one, else the first in the order of unstaking; `None` when no
    /// validator can be unstaked from.
    pub open spec fn unstake_candidate(
        self,
        total_staked: u128,
        epoch: EpochHeight,
        amount: u128,
    ) -> Option<(int, int)> {
        if exists|i: int| self.is_exact_fit(total_staked, epoch, amount, i) {
            Some((choose|i: int| self.is_exact_fit(total_staked, epoch, amount, i), amount as int))
        } else if exists|i: int| self.is_top_ratio(total_staked, epoch, i) {
            let i = choose|i: int| self.is_top_ratio(total_staked, epoch, i);
            Some((i, self.partial_unstake_amount(total_staked, amount, i)))
        } else {
            None
        }
    }
}

/// For a validator of the pool, the guaranteed floor is the part of its
/// target that comes from its base stake amount.
pub proof fn lemma_floor_is_base_component(pool: PoolView, total_staked: u128, v: Validator)
    requires
        v.base_stake_amount <= pool.total_base_stake_amount,
    ensures
        pool.guaranteed_floor(total_staked, v) == pool.base_component(total_staked, v),
{
    let tb = pool.total_base_stake_amount as int;
    let b = v.base_stake_amount as int;
    if tb != 0 {
        if total_staked >= tb {
            lemma_mul_div_monotonic(tb, total_staked as int, b, tb);
            lemma_div_multiples_vanish(b, tb);
            assert(tb * b == b * tb && total_staked * b == b * total_staked) by (nonlinear_arith);
        } else {
            lemma_mul_div_bound(b, total_staked as int, tb);
        }
    }
}

/// At most one validator is the exact fit, and at most one is the first in the order of unstaking.
pub proof fn lemma_unstake_candidate_unique(
    pool: PoolView,
    total_staked: u128,
    epoch: EpochHeight,
    amount: u128,
    i: int,
    j: int,
)
    ensures
        pool.is_exact_fit(total_staked, epoch, amount, i) && pool.is_exact_fit(
            total_staked,
            epoch,
            amount,
            j,
        ) ==> i == j,
        pool.is_top_ratio(total_staked, epoch, i) && pool.is_top_ratio(total_staked, epoch, j)
            ==> i == j,
{
}

impl ValidatorPool {
    /// The validator to unstake from when `total_amount_to_unstake` is to be
    /// unstaked and the pool holds `total_staked_near_amount`, with the amount
    /// to unstake from it.
    ///
    /// Only validators that are not in their release period at `current_epoch`
    /// and hold more than their target are considered. If one of them holds
    /// the whole amount above its target, the one of those that is the least
    /// above it gives the whole amount. Otherwise the first in the order of
    /// unstaking gives a part of it.
    pub fn get_candidate_to_unstake_v2(
        &self,
        total_amount_to_unstake: u128,
        total_staked_near_amount: u128,
        current_epoch: EpochHeight,
    ) -> (r: Option<CandidateValidator>)
        requires
            self.wf(),
        ensures
            r is None <==> self@.unstake_candidate(
                total_staked_near_amount,
                current_epoch,
                total_amount_to_unstake,
            ) is None,
            r is None <==> forall|j: int| !#[trigger]
                self@.can_unstake(total_staked_near_amount, current_epoch, j),
            r matches Some(c) ==> {
                let (i, amount) = self@.unstake_candidate(
                    total_staked_near_amount,
                    current_epoch,
                    total_amount_to_unstake,
                )->0;
                &&& self@.can_unstake(total_staked_near_amount, current_epoch, i)
                &&& c.validator == self@.validators[i]
                &&& c.amount == amount
                &&& !c.validator.spec_pending_release(current_epoch)
                &&& c.amount <= total_amount_to_unstake
                &&& c.amount <= c.validator.staked_amount
                &&& total_amount_to_unstake > 0 ==> c.amount > 0
            },
    {
        let ghost pool = self@;
        let ghost total = total_staked_near_amount;
        let ghost epoch = current_epoch;
        let ghost amount = total_amount_to_unstake;
        let mut fit: Option<usize> = None;
        let mut fit_delta: u128 = 0;
        let mut top: Option<usize> = None;
        let mut top_target: u128 = 0;
        let mut top_delta: u128 = 0;
        let mut k: usize = 0;
        while k < self.validators.len()
            invariant
                self.wf(),
                pool == self@,
                total == total_staked_near_amount,
                epoch == current_epoch,
                amount == total_amount_to_unstake,
                k <= self.validators.len(),
                fit is None ==> forall|j: int| 0 <= j < k ==> !#[trigger] pool.fits(total, epoch, amount, j),
                fit matches Some(f) ==> {
                    &&& f < k
                    &&& pool.fits(total, epoch, amount, f as int)
                    &&& pool.unstake_delta(total, f as int) == fit_delta
                    &&& forall|j: int|
                        0 <= j < k && #[trigger] pool.fits(total, epoch, amount, j) ==> fit_delta
                            <= pool.unstake_delta(total, j) && (j < f ==> fit_delta
                            < pool.unstake_delta(total, j))
                },
                top is None ==> forall|j: int| 0 <= j < k ==> !#[trigger] pool.can_unstake(total, epoch, j),
                top matches Some(t) ==> {
                    &&& t < k
                    &&& pool.can_unstake(total, epoch, t as int)
                    &&& pool.target_at(total, t as int) == top_target
                    &&& pool.unstake_delta(total, t as int) == top_delta
                    &&& forall|j: int|
                        0 <= j < k && #[trigger] pool.can_unstake(total, epoch, j)
                            ==> !pool.drains_before_at(total, j, t as int) && (j < t
                            ==> pool.drains_before_at(total, t as int, j))
                },
            decreases self.validators.len() - k,
        {
            let target_amount = self.target_of(total_staked_near_amount, k);
            let staked = self.validators[k].staked_amount;
            if !self.validators[k].pending_release(current_epoch) && staked > target_amount {
                let delta = staked - target_amount;
                assert(pool.can_unstake(total, epoch, k as int));
                if delta >= total_amount_to_unstake {
                    let better = match fit {
                        Some(_) => delta < fit_delta,
                        None => true,
                    };
                    if better {
                        fit = Some(k);
                        fit_delta = delta;
                    }
                }
                let first = match top {
                    Some(_) => drains_before(target_amount, delta, top_target, top_delta),
                    None => true,
                };
                if first {
                    proof {
                        if let Some(t) = top {
                            assert forall|j: int|
                                0 <= j < k && #[trigger] pool.can_unstake(
                                    total,
                                    epoch,
                                    j,
                                ) implies !pool.drains_before_at(total, j, k as int)
                                && pool.drains_before_at(total, k as int, j) by {
                                lemma_target_at_nonnegative(pool, total, j);
                                lemma_target_at_nonnegative(pool, total, t as int);
                                lemma_target_at_nonnegative(pool, total, k as int);
                                lemma_drains_before_transitive(
                                    pool.target_at(total, k as int),
                                    pool.unstake_delta(total, k as int),
                                    pool.target_at(total, t as int),
                                    pool.unstake_delta(total, t as int),
                                    pool.target_at(total, j),
                                    pool.unstake_delta(total, j),
                                );
                            }
                        }
                    }
                    top = Some(k);
                    top_target = target_amount;
                    top_delta = delta;
                }
            }
            k += 1;
        }
        match fit {
            Some(f) => {
                proof {
                    assert(pool.is_exact_fit(total, epoch, amount, f as int));
                    let (i, a) = pool.unstake_candidate(total, epoch, amount)->0;
                    lemma_unstake_candidate_unique(pool, total, epoch, amount, i, f as int);
                    lemma_target_at_nonnegative(pool, total, f as int);
                }
                return Some(
                    CandidateValidator {
                        validator: self.validators[f].clone(),
                        amount: total_amount_to_unstake,
                    },
                );
            },
            None => {
                proof {
                    assert forall|i: int| !pool.is_exact_fit(total, epoch, amount, i) by {
                        if pool.fits(total, epoch, amount, i) {
                            assert(0 <= i < k);
                        }
                    }
                }
            },
        }
        match top {
            Some(t) => {
                let validator = self.validators[t].clone();
                proof {
                    assert(pool.is_top_ratio(total, epoch, t as int));
                    let (i, a) = pool.unstake_candidate(total, epoch, amount)->0;
                    lemma_unstake_candidate_unique(pool, total, epoch, amount, i, t as int);
                    lemma_sums_bound(pool.validators, t as int);
                    lemma_floor_is_base_component(pool, total, validator);
                    lemma_target_bound(pool, total, validator);
                    if pool.total_base_stake_amount != 0 {
                        lemma_mul_div_bound(
                            total as int,
                            validator.base_stake_amount as int,
                            pool.total_base_stake_amount as int,
                        );
                    }
                }
                let share = if self.total_base_stake_amount == 0 {
                    0
                } else {
                    match mul_div_rem(
                        validator.base_stake_amount,
                        total_staked_near_amount,
                        self.total_base_stake_amount,
                    ) {
                        Some((q, _)) => q,
                        None => 0,
                    }
                };
                let floor = if share <= validator.base_stake_amount {
                    share
                } else {
                    validator.base_stake_amount
                };
                let above_floor = if validator.staked_amount >= floor {
                    validator.staked_amount - floor
                } else {
                    0
                };
                let half = top_target / 2;
                let amount_to_unstake = min3(
                    total_amount_to_unstake,
                    if half >= top_delta {
                        half
                    } else {
                        top_delta
                    },
                    above_floor,
                );
                Some(CandidateValidator { validator, amount: amount_to_unstake })
            },
            None => {
                proof {
                    assert forall|i: int| !pool.is_top_ratio(total, epoch, i) by {
                        if pool.can_unstake(total, epoch, i) {
                            assert(0 <= i < k);
                        }
                    }
                }
                None
            },
        }
    }
}

/// The target of a validator of a well-formed pool is not negative.
pub proof fn lemma_target_at_nonnegative(pool: PoolView, total_staked: u128, i: int)
    requires
        pool.wf(),
        0 <= i < pool.validators.len(),
    ensures
        0 <= pool.target_at(total_staked, i) <= total_staked,
{
    lemma_sums_bound(pool.validators, i);
    lemma_target_bound(pool, total_staked, pool.validators[i]);
}

/// The sum of the staked amounts of `s`.
pub open spec fn sum_staked(s: Seq<Validator>) -> int
    decreases s.len(),
{
    if s.len() == 0 {
        0
    } else {
        sum_staked(s.drop_last()) + s.last().staked_amount
    }
}

/// The sum of the staked amounts of the validators of `s` that are not in
/// their release period at `epoch`.
pub open spec fn sum_available(s: Seq<Validator>, epoch: EpochHeight) -> int
    decreases s.len(),
{
    if s.len() == 0 {
        0
    } else {
        sum_available(s.drop_last(), epoch) + if s.last().spec_pending_release(epoch) {
            0int
        } else {
            s.last().staked_amount as int
        }
    }
}

/// The sums over the first `k` validators grow with `k`.
pub proof fn lemma_staked_sums_prefix(s: Seq<Validator>, epoch: EpochHeight, k: int)
    requires
        0 <= k <= s.len(),
    ensures
        0 <= sum_available(s.take(k), epoch) <= sum_available(s, epoch),
        0 <= sum_staked(s.take(k)) <= sum_staked(s),
    decreases s.len(),
{
    if k == s.len() {
        assert(s.take(k) =~= s);
        if s.len() > 0 {
            lemma_staked_sums_prefix(s.drop_last(), epoch, k - 1);
        }
    } else {
        lemma_staked_sums_prefix(s.drop_last(), epoch, k);
        assert(s.drop_last().take(k) =~= s.take(k));
    }
}

impl PoolView {
    /// The number of epochs after which `amount`, unstaked at `epoch`, is
    /// released: the usual number when the validators that are not in their
    /// release period hold that much, or when nothing is staked at all, and
    /// twice that number otherwise.
    pub open spec fn num_epoch_to_unstake(self, amount: u128, epoch: EpochHeight) -> EpochHeight {
        if sum_available(self.validators, epoch) >= amount || sum_staked(self.validators) == 0 {
            NUM_EPOCHS_TO_UNLOCK
        } else {
            (2 * NUM_EPOCHS_TO_UNLOCK) as EpochHeight
        }
    }
}

impl ValidatorPool {
    /// The number of epochs after which `amount`, unstaked at `current_epoch`, is released.
    pub fn get_num_epoch_to_unstake(&self, amount: u128, current_epoch: EpochHeight) -> (epochs:
        EpochHeight)
        ensures
            epochs == self@.num_epoch_to_unstake(amount, current_epoch),
            epochs == NUM_EPOCHS_TO_UNLOCK || epochs == 2 * NUM_EPOCHS_TO_UNLOCK,
    {
        proof {
            lemma_staked_sums_prefix(self@.validators, current_epoch, 0);
        }
        if amount == 0 {
            return NUM_EPOCHS_TO_UNLOCK;
        }
        let mut available_amount: u128 = 0;
        let mut any_staked: bool = false;
        let mut k: usize = 0;
        while k < self.validators.len()
            invariant
                amount > 0,
                k <= self.validators.len(),
                available_amount == sum_available(self@.validators.take(k as int), current_epoch),
                available_amount < amount,
                any_staked == (sum_staked(self@.validators.take(k as int)) > 0),
            decreases self.validators.len() - k,
        {
            proof {
                assert(self@.validators.take(k + 1).drop_last() =~= self@.validators.take(k as int));
                lemma_staked_sums_prefix(self@.validators, current_epoch, k + 1);
                lemma_staked_sums_prefix(self@.validators, current_epoch, k as int);
            }
            let staked = self.validators[k].staked_amount;
            if staked > 0 {
                any_staked = true;
            }
            if !self.validators[k].pending_release(current_epoch) {
                if staked >= amount - available_amount {
                    return NUM_EPOCHS_TO_UNLOCK;
                }
                available_amount = available_amount + staked;
            }
            k += 1;
        }
        proof {
            assert(self@.validators.take(k as int) =~= self@.validators);
        }
        if !any_staked {
            NUM_EPOCHS_TO_UNLOCK
        } else {
            2 * NUM_EPOCHS_TO_UNLOCK
        }
    }
}

} // verus!
