//! The validators of the pool: who they are, in which order they are walked,
//! and the running sums of their weights and base stake amounts.

use vstd::prelude::*;
use crate::errors::Error;
use crate::validator::Validator;

verus! {

/// The largest number of weights that can be updated at a time.
pub const MAX_UPDATE_WEIGHTS_COUNT: usize = 300;

/// The validators of the pool in the order in which they are walked, and the
/// running sums of their weights and base stake amounts.
pub struct ValidatorPool {
    pub validators: Vec<Validator>,
    pub total_weight: u16,
    pub total_base_stake_amount: u128,
}

/// What a `ValidatorPool` holds, as a mathematical value.
pub struct PoolView {
    pub validators: Seq<Validator>,
    pub total_weight: u16,
    pub total_base_stake_amount: u128,
}

impl View for ValidatorPool {
    type V = PoolView;

    open spec fn view(&self) -> PoolView {
        PoolView {
            validators: self.validators@,
            total_weight: self.total_weight,
            total_base_stake_amount: self.total_base_stake_amount,
        }
    }
}

/// The sum of the weights of `s`.
pub open spec fn sum_weights(s: Seq<Validator>) -> int
    decreases s.len(),
{
    if s.len() == 0 {
        0
    } else {
        sum_weights(s.drop_last()) + s.last().weight
    }
}

/// The sum of the base stake amounts of `s`.
pub open spec fn sum_base(s: Seq<Validator>) -> int
    decreases s.len(),
{
    if s.len() == 0 {
        0
    } else {
        sum_base(s.drop_last()) + s.last().base_stake_amount
    }
}

/// Replacing one validator changes both sums by the difference between the two.
pub proof fn lemma_sums_update(s: Seq<Validator>, i: int, v: Validator)
    requires
        0 <= i < s.len(),
    ensures
        sum_weights(s.update(i, v)) == sum_weights(s) - s[i].weight + v.weight,
        sum_base(s.update(i, v)) == sum_base(s) - s[i].base_stake_amount + v.base_stake_amount,
    decreases s.len(),
{
    let t = s.update(i, v);
    if i == s.len() - 1 {
        assert(t.drop_last() =~= s.drop_last());
    } else {
        lemma_sums_update(s.drop_last(), i, v);
        assert(t.drop_last() =~= s.drop_last().update(i, v));
    }
}

/// A validator added at the end adds its weight and base stake amount to the sums.
pub proof fn lemma_sums_push(s: Seq<Validator>, v: Validator)
    ensures
        sum_weights(s.push(v)) == sum_weights(s) + v.weight,
        sum_base(s.push(v)) == sum_base(s) + v.base_stake_amount,
{
    assert(s.push(v).drop_last() =~= s);
}

/// No weight and no base stake amount is larger than the sum it belongs to.
pub proof fn lemma_sums_bound(s: Seq<Validator>, i: int)
    requires
        0 <= i < s.len(),
    ensures
        s[i].weight <= sum_weights(s),
        s[i].base_stake_amount <= sum_base(s),
    decreases s.len(),
{
    lemma_sums_nonnegative(s.drop_last());
    if i < s.len() - 1 {
        lemma_sums_bound(s.drop_last(), i);
    }
}

/// Both sums are natural numbers.
pub proof fn lemma_sums_nonnegative(s: Seq<Validator>)
    ensures
        0 <= sum_weights(s),
        0 <= sum_base(s),
    decreases s.len(),
{
    if s.len() > 0 {
        lemma_sums_nonnegative(s.drop_last());
    }
}

/// Taking out the validator at `i`, the last one moving into its place, takes
/// its weight and base stake amount out of the sums.
pub proof fn lemma_sums_swap_remove(s: Seq<Validator>, i: int)
    requires
        0 <= i < s.len(),
    ensures
        sum_weights(s.update(i, s.last()).drop_last()) == sum_weights(s) - s[i].weight,
        sum_base(s.update(i, s.last()).drop_last()) == sum_base(s) - s[i].base_stake_amount,
{
    lemma_sums_update(s, i, s.last());
    let t = s.update(i, s.last());
    assert(t.last() == s.last());
}

impl PoolView {
    /// Whether some validator of the pool has the account id `id`.
    pub open spec fn has_id(self, id: Seq<char>) -> bool {
        exists|i: int| 0 <= i < self.validators.len() && self.validators[i].account_id@ == id
    }

    /// The place of the first validator with the account id `id`.
    pub open spec fn index_of(self, id: Seq<char>) -> int {
        choose|i: int|
            0 <= i < self.validators.len() && self.validators[i].account_id@ == id && forall|
                j: int,
            |
                0 <= j < i ==> self.validators[j].account_id@ != id
    }

    /// No two validators have the same account id.
    pub open spec fn ids_unique(self) -> bool {
        forall|i: int, j: int|
            0 <= i < j < self.validators.len() ==> self.validators[i].account_id@
                != self.validators[j].account_id@
    }

    /// The pool's invariant: account ids are unique, the two totals are the
    /// sums over the validators, and the validators can be counted in 32 bits.
    pub open spec fn wf(self) -> bool {
        &&& self.ids_unique()
        &&& self.validators.len() <= u32::MAX
        &&& self.total_weight == sum_weights(self.validators)
        &&& self.total_base_stake_amount == sum_base(self.validators)
    }

    /// Whether `v` is, field for field, what the pool holds under `v`'s account id.
    pub open spec fn holds(self, v: Validator) -> bool {
        exists|i: int| 0 <= i < self.validators.len() && self.validators[i] == v
    }

    /// The pool after `v` is written to it: in place of the validator with the
    /// same account id, or at the end when there is none. The totals stay.
    pub open spec fn saved(self, v: Validator) -> PoolView {
        if self.has_id(v.account_id@) {
            PoolView {
                validators: self.validators.update(self.index_of(v.account_id@), v),
                ..self
            }
        } else {
            PoolView { validators: self.validators.push(v), ..self }
        }
    }

    /// The pool with another total of base stake amounts.
    pub open spec fn with_total_base(self, total: u128) -> PoolView {
        PoolView { total_base_stake_amount: total, ..self }
    }
}

/// In a pool with a validator of account id `id`, `index_of` is the place of the first such one.
pub proof fn lemma_index_of(pool: PoolView, id: Seq<char>)
    requires
        pool.has_id(id),
    ensures
        0 <= pool.index_of(id) < pool.validators.len(),
        pool.validators[pool.index_of(id)].account_id@ == id,
        forall|j: int| 0 <= j < pool.index_of(id) ==> pool.validators[j].account_id@ != id,
{
    let k = choose|i: int| 0 <= i < pool.validators.len() && pool.validators[i].account_id@ == id;
    lemma_first_with_id(pool, id, k);
}

proof fn lemma_first_with_id(pool: PoolView, id: Seq<char>, k: int)
    requires
        0 <= k < pool.validators.len(),
        pool.validators[k].account_id@ == id,
    ensures
        exists|i: int|
            0 <= i < pool.validators.len() && pool.validators[i].account_id@ == id && forall|
                j: int,
            |
                0 <= j < i ==> pool.validators[j].account_id@ != id,
    decreases k,
{
    if exists|j: int| 0 <= j < k && pool.validators[j].account_id@ == id {
        let j = choose|j: int| 0 <= j < k && pool.validators[j].account_id@ == id;
        lemma_first_with_id(pool, id, j);
    } else {
        assert(0 <= k < pool.validators.len() && pool.validators[k].account_id@ == id && forall|
            j: int,
        |
            0 <= j < k ==> pool.validators[j].account_id@ != id);
    }
}

/// The place of the validator with account id `id` is `i` when it stands at
/// `i` and at no earlier place.
pub proof fn lemma_index_of_is(pool: PoolView, id: Seq<char>, i: int)
    requires
        0 <= i < pool.validators.len(),
        pool.validators[i].account_id@ == id,
        forall|j: int| 0 <= j < i ==> pool.validators[j].account_id@ != id,
    ensures
        pool.has_id(id),
        pool.index_of(id) == i,
{
    lemma_index_of(pool, id);
}

/// A validator that a well-formed pool holds stands at the place of its account id.
pub proof fn lemma_holds_index(pool: PoolView, v: Validator)
    requires
        pool.ids_unique(),
        pool.holds(v),
    ensures
        pool.has_id(v.account_id@),
        pool.validators[pool.index_of(v.account_id@)] == v,
        0 <= pool.index_of(v.account_id@) < pool.validators.len(),
{
    let i = choose|i: int| 0 <= i < pool.validators.len() && pool.validators[i] == v;
    lemma_index_of(pool, v.account_id@);
}

/// Writing a validator over the one with its account id keeps the pool's
/// invariant when its weight is the same and the total of the base stake
/// amounts follows its base stake amount.
pub proof fn lemma_saved_keeps_wf(pool: PoolView, v: Validator, total_base: u128)
    requires
        pool.wf(),
        pool.has_id(v.account_id@),
        pool.validators[pool.index_of(v.account_id@)].weight == v.weight,
        total_base == pool.total_base_stake_amount - pool.validators[pool.index_of(
            v.account_id@,
        )].base_stake_amount + v.base_stake_amount,
    ensures
        pool.saved(v).with_total_base(total_base).wf(),
        pool.saved(v).with_total_base(total_base).holds(v),
        pool.saved(v).validators == pool.validators.update(pool.index_of(v.account_id@), v),
        pool.saved(v).index_of(v.account_id@) == pool.index_of(v.account_id@),
        forall|id: Seq<char>| pool.saved(v).has_id(id) == pool.has_id(id),
{
    let i = pool.index_of(v.account_id@);
    lemma_index_of(pool, v.account_id@);
    lemma_sums_update(pool.validators, i, v);
    let after = pool.saved(v);
    assert(after.validators[i] == v);
    lemma_index_of_is(after, v.account_id@, i);
    assert forall|id: Seq<char>| after.has_id(id) == pool.has_id(id) by {
        if pool.has_id(id) {
            let k = choose|k: int|
                0 <= k < pool.validators.len() && pool.validators[k].account_id@ == id;
            assert(after.validators[k].account_id@ == id);
        }
        if after.has_id(id) {
            let k = choose|k: int|
                0 <= k < after.validators.len() && after.validators[k].account_id@ == id;
            assert(pool.validators[k].account_id@ == id);
        }
    }
}

impl ValidatorPool {
    /// The pool's invariant, on the pool itself.
    pub open spec fn wf(&self) -> bool {
        self@.wf()
    }

    /// A pool without validators.
    pub fn new() -> (pool: Self)
        ensures
            pool@.validators.len() == 0,
            pool@.total_weight == 0,
            pool@.total_base_stake_amount == 0,
            pool.wf(),
    {
        ValidatorPool { validators: Vec::new(), total_weight: 0, total_base_stake_amount: 0 }
    }

    /// The number of validators.
    pub fn count(&self) -> (n: u32)
        requires
            self@.validators.len() <= u32::MAX,
        ensures
            n == self@.validators.len(),
    {
        self.validators.len() as u32
    }

    /// The place of the validator with account id `validator_id`, if there is one.
    pub fn position(&self, validator_id: &String) -> (place: Option<usize>)
        ensures
            place is Some <==> self@.has_id(validator_id@),
            place matches Some(i) ==> i == self@.index_of(validator_id@) && i
                < self@.validators.len(),
    {
        let mut i: usize = 0;
        while i < self.validators.len()
            invariant
                i <= self.validators.len(),
                forall|j: int| 0 <= j < i ==> self@.validators[j].account_id@ != validator_id@,
            decreases self.validators.len() - i,
        {
            if self.validators[i].account_id == *validator_id {
                proof {
                    lemma_index_of_is(self@, validator_id@, i as int);
                }
                return Some(i);
            }
            i += 1;
        }
        None
    }

    /// A copy of the validator with account id `validator_id`, if there is one.
    pub fn get_validator(&self, validator_id: &String) -> (found: Option<Validator>)
        ensures
            found is Some <==> self@.has_id(validator_id@),
            found matches Some(v) ==> v == self@.validators[self@.index_of(validator_id@)]
                && v.account_id@ == validator_id@ && self@.holds(v),
    {
        match self.position(validator_id) {
            Some(i) => {
                proof {
                    lemma_index_of(self@, validator_id@);
                }
                Some(self.validators[i].clone())
            },
            None => None,
        }
    }

    /// Writes `validator` to the pool: over the validator with the same account
    /// id, or at the end when there is none. The totals are not touched.
    pub fn save_validator(&mut self, validator: &Validator)
        ensures
            final(self)@ == old(self)@.saved(*validator),
    {
        match self.position(&validator.account_id) {
            Some(i) => {
                self.validators.set(i, validator.clone());
            },
            None => {
                self.validators.push(validator.clone());
            },
        }
    }
}

impl PoolView {
    /// The place up to which `get_validators` skips.
    pub open spec fn page_start(self, from_index: Option<usize>) -> int {
        match from_index {
            Some(n) => if n <= self.validators.len() {
                n as int
            } else {
                self.validators.len() as int
            },
            None => 0,
        }
    }

    /// The place before which `get_validators` stops.
    pub open spec fn page_end(self, from_index: Option<usize>, limit: Option<usize>) -> int {
        match limit {
            Some(n) => if self.page_start(from_index) + n <= self.validators.len() {
                self.page_start(from_index) + n
            } else {
                self.validators.len() as int
            },
            None => self.validators.len() as int,
        }
    }
}

impl ValidatorPool {
    /// Copies of the validators from place `from_index` on (from the first one
    /// when it is `None`), `limit` of them at most (all that follow when it is `None`).
    pub fn get_validators(&self, from_index: Option<usize>, limit: Option<usize>) -> (page: Vec<
        Validator,
    >)
        ensures
            page@ == self@.validators.subrange(
                self@.page_start(from_index),
                self@.page_end(from_index, limit),
            ),
    {
        let len = self.validators.len();
        let start = match from_index {
            Some(n) => if n <= len {
                n
            } else {
                len
            },
            None => 0,
        };
        let end = match limit {
            Some(n) => if n <= len - start {
                start + n
            } else {
                len
            },
            None => len,
        };
        let mut page: Vec<Validator> = Vec::new();
        let mut i: usize = start;
        while i < end
            invariant
                start <= i <= end <= self.validators.len(),
                page@ == self@.validators.subrange(start as int, i as int),
            decreases end - i,
        {
            page.push(self.validators[i].clone());
            proof {
                assert(self@.validators.subrange(start as int, i + 1) =~= self@.validators.subrange(
                    start as int,
                    i as int,
                ).push(self@.validators[i as int]));
            }
            i += 1;
        }
        page
    }

    /// Adds a validator that holds nothing yet, at the end of the pool.
    ///
    /// Refused when the account id is in the pool already, or when the total
    /// weight or the number of validators would no longer fit.
    pub fn add_validator(&mut self, validator_id: &String, weight: u16) -> (r: Result<
        Validator,
        Error,
    >)
        requires
            old(self).wf(),
        ensures
            final(self).wf(),
            old(self)@.has_id(validator_id@) ==> r == Err::<Validator, Error>(
                Error::ValidatorAlreadyExist,
            ),
            !old(self)@.has_id(validator_id@) && (old(self)@.total_weight + weight > u16::MAX
                || old(self)@.validators.len() >= u32::MAX) ==> r == Err::<Validator, Error>(
                Error::ArithmeticOverflow,
            ),
            !old(self)@.has_id(validator_id@) && old(self)@.total_weight + weight <= u16::MAX
                && old(self)@.validators.len() < u32::MAX ==> r is Ok,
            r is Err ==> final(self)@ == old(self)@,
            r matches Ok(v) ==> {
                &&& v == (Validator {
                    account_id: v.account_id,
                    weight,
                    staked_amount: 0,
                    unstaked_amount: 0,
                    base_stake_amount: 0,
                    unstake_fired_epoch: 0,
                    last_unstake_fired_epoch: 0,
                    draining: false,
                    executing: false,
                })
                &&& v.account_id@ == validator_id@
                &&& final(self)@ == (PoolView {
                    validators: old(self)@.validators.push(v),
                    total_weight: (old(self)@.total_weight + weight) as u16,
                    ..old(self)@
                })
            },
    {
        if self.position(validator_id).is_some() {
            return Err(Error::ValidatorAlreadyExist);
        }
        if weight > u16::MAX - self.total_weight || self.validators.len() >= u32::MAX as usize {
            return Err(Error::ArithmeticOverflow);
        }
        let validator = Validator::new(validator_id.clone(), weight);
        proof {
            lemma_sums_push(self@.validators, validator);
        }
        self.validators.push(validator.clone());
        self.total_weight = self.total_weight + weight;
        Ok(validator)
    }

    /// Takes the validator with account id `validator_id` out of the pool; the
    /// last validator moves into its place.
    ///
    /// Refused when there is no such validator, or when it still holds a
    /// staked or an unstaked amount.
    pub fn remove_validator(&mut self, validator_id: &String) -> (r: Result<Validator, Error>)
        requires
            old(self).wf(),
        ensures
            final(self).wf(),
            !old(self)@.has_id(validator_id@) ==> r == Err::<Validator, Error>(
                Error::ValidatorNotExist,
            ),
            old(self)@.has_id(validator_id@) ==> {
                let v = old(self)@.validators[old(self)@.index_of(validator_id@)];
                if v.staked_amount == 0 && v.unstaked_amount == 0 {
                    r == Ok::<Validator, Error>(v)
                } else {
                    r == Err::<Validator, Error>(Error::ValidatorInUse)
                }
            },
            r is Err ==> final(self)@ == old(self)@,
            r matches Ok(v) ==> final(self)@ == (PoolView {
                validators: old(self)@.validators.update(
                    old(self)@.index_of(validator_id@),
                    old(self)@.validators.last(),
                ).drop_last(),
                total_weight: (old(self)@.total_weight - v.weight) as u16,
                total_base_stake_amount: (old(self)@.total_base_stake_amount
                    - v.base_stake_amount) as u128,
            }),
    {
        let i = match self.position(validator_id) {
            Some(i) => i,
            None => {
                return Err(Error::ValidatorNotExist);
            },
        };
        if self.validators[i].staked_amount != 0 || self.validators[i].unstaked_amount != 0 {
            return Err(Error::ValidatorInUse);
        }
        proof {
            lemma_sums_bound(self@.validators, i as int);
            lemma_sums_swap_remove(self@.validators, i as int);
        }
        let validator = self.validators.swap_remove(i);
        self.total_weight = self.total_weight - validator.weight;
        self.total_base_stake_amount = self.total_base_stake_amount - validator.base_stake_amount;
        Ok(validator)
    }

    /// Gives the validator with account id `validator_id` another weight, and
    /// returns the weight that it had.
    ///
    /// Refused when there is no such validator, or when the total weight would
    /// no longer fit.
    pub fn update_weight(&mut self, validator_id: &String, weight: u16) -> (r: Result<u16, Error>)
        requires
            old(self).wf(),
        ensures
            final(self).wf(),
            old(self)@.weight_updated(validator_id@, weight) matches Ok(pool) ==> r is Ok && final(self)@ == pool,
            old(self)@.weight_updated(validator_id@, weight) matches Err(e) ==> r == Err::<
                u16,
                Error,
            >(e),
            !old(self)@.has_id(validator_id@) ==> r == Err::<u16, Error>(Error::ValidatorNotExist),
            old(self)@.has_id(validator_id@) ==> {
                let v = old(self)@.validators[old(self)@.index_of(validator_id@)];
                if old(self)@.total_weight - v.weight + weight <= u16::MAX {
                    r == Ok::<u16, Error>(v.weight)
                } else {
                    r == Err::<u16, Error>(Error::ArithmeticOverflow)
                }
            },
            r is Err ==> final(self)@ == old(self)@,
            r matches Ok(old_weight) ==> {
                let i = old(self)@.index_of(validator_id@);
                final(self)@ == (PoolView {
                    validators: old(self)@.validators.update(
                        i,
                        Validator { weight, ..old(self)@.validators[i] },
                    ),
                    total_weight: (old(self)@.total_weight - old_weight + weight) as u16,
                    ..old(self)@
                })
            },
    {
        let i = match self.position(validator_id) {
            Some(i) => i,
            None => {
                return Err(Error::ValidatorNotExist);
            },
        };
        let mut validator = self.validators[i].clone();
        let old_weight = validator.weight;
        proof {
            lemma_sums_bound(self@.validators, i as int);
        }
        let rest = self.total_weight - old_weight;
        if weight > u16::MAX - rest {
            return Err(Error::ArithmeticOverflow);
        }
        validator.weight = weight;
        proof {
            lemma_sums_update(self@.validators, i as int, validator);
        }
        self.validators.set(i, validator);
        self.total_weight = rest + weight;
        Ok(old_weight)
    }

    /// Gives the validator with account id `validator_id` another base stake amount.
    ///
    /// Refused when there is no such validator, or when the total of the base
    /// stake amounts would no longer fit.
    pub fn update_base_stake_amount(&mut self, validator_id: &String, amount: u128) -> (r: Result<
        (),
        Error,
    >)
        requires
            old(self).wf(),
        ensures
            final(self).wf(),
            old(self)@.base_updated(validator_id@, amount) matches Ok(pool) ==> r is Ok && final(self)@ == pool,
            old(self)@.base_updated(validator_id@, amount) matches Err(e) ==> r == Err::<
                (),
                Error,
            >(e),
            !old(self)@.has_id(validator_id@) ==> r == Err::<(), Error>(Error::ValidatorNotExist),
            old(self)@.has_id(validator_id@) ==> {
                let v = old(self)@.validators[old(self)@.index_of(validator_id@)];
                if old(self)@.total_base_stake_amount - v.base_stake_amount + amount <= u128::MAX {
                    r is Ok
                } else {
                    r == Err::<(), Error>(Error::ArithmeticOverflow)
                }
            },
            r is Err ==> final(self)@ == old(self)@,
            r is Ok ==> {
                let i = old(self)@.index_of(validator_id@);
                final(self)@ == (PoolView {
                    validators: old(self)@.validators.update(
                        i,
                        Validator { base_stake_amount: amount, ..old(self)@.validators[i] },
                    ),
                    total_base_stake_amount: (old(self)@.total_base_stake_amount
                        - old(self)@.validators[i].base_stake_amount + amount) as u128,
                    ..old(self)@
                })
            },
    {
        let i = match self.position(validator_id) {
            Some(i) => i,
            None => {
                return Err(Error::ValidatorNotExist);
            },
        };
        let mut validator = self.validators[i].clone();
        proof {
            lemma_sums_bound(self@.validators, i as int);
        }
        let rest = self.total_base_stake_amount - validator.base_stake_amount;
        if amount > u128::MAX - rest {
            return Err(Error::ArithmeticOverflow);
        }
        validator.base_stake_amount = amount;
        proof {
            lemma_sums_update(self@.validators, i as int, validator);
        }
        self.validators.set(i, validator);
        self.total_base_stake_amount = rest + amount;
        Ok(())
    }
}

/// The validator that is written to a pool is the one that the pool then has
/// under its account id.
pub proof fn lemma_saved_lookup(pool: PoolView, v: Validator)
    requires
        pool.has_id(v.account_id@),
    ensures
        pool.saved(v).has_id(v.account_id@),
        pool.saved(v).index_of(v.account_id@) == pool.index_of(v.account_id@),
        pool.saved(v).validators[pool.saved(v).index_of(v.account_id@)] == v,
        pool.saved(v).validators == pool.validators.update(pool.index_of(v.account_id@), v),
{
    let i = pool.index_of(v.account_id@);
    lemma_index_of(pool, v.account_id@);
    let after = pool.saved(v);
    assert(after.validators[i] == v);
    lemma_index_of_is(after, v.account_id@, i);
}

impl PoolView {
    /// The pool after the validator with account id `id` is given the weight
    /// `weight`, or why it cannot be.
    pub open spec fn weight_updated(self, id: Seq<char>, weight: u16) -> Result<PoolView, Error> {
        if !self.has_id(id) {
            Err(Error::ValidatorNotExist)
        } else {
            let i = self.index_of(id);
            let v = self.validators[i];
            if self.total_weight - v.weight + weight > u16::MAX {
                Err(Error::ArithmeticOverflow)
            } else {
                Ok(
                    PoolView {
                        validators: self.validators.update(i, Validator { weight, ..v }),
                        total_weight: (self.total_weight - v.weight + weight) as u16,
                        ..self
                    },
                )
            }
        }
    }

    /// The pool after the validator with account id `id` is given the base
    /// stake amount `amount`, or why it cannot be.
    pub open spec fn base_updated(self, id: Seq<char>, amount: u128) -> Result<PoolView, Error> {
        if !self.has_id(id) {
            Err(Error::ValidatorNotExist)
        } else {
            let i = self.index_of(id);
            let v = self.validators[i];
            if self.total_base_stake_amount - v.base_stake_amount + amount > u128::MAX {
                Err(Error::ArithmeticOverflow)
            } else {
                Ok(
                    PoolView {
                        validators: self.validators.update(
                            i,
                            Validator { base_stake_amount: amount, ..v },
                        ),
                        total_base_stake_amount: (self.total_base_stake_amount
                            - v.base_stake_amount + amount) as u128,
                        ..self
                    },
                )
            }
        }
    }

    /// The pool after the first `k` validators of `ids` are given the weights
    /// of `weights`, one after the other, or why the first of them that cannot
    /// be given its weight cannot.
    pub open spec fn weights_updated(self, ids: Seq<String>, weights: Seq<u16>, k: int) -> Result<
        PoolView,
        Error,
    >
        decreases k,
    {
        if k <= 0 {
            Ok(self)
        } else {
            match self.weights_updated(ids, weights, k - 1) {
                Err(e) => Err(e),
                Ok(pool) => pool.weight_updated(ids[k - 1]@, weights[k - 1]),
            }
        }
    }

    /// The pool after the first `k` validators of `ids` are given the base
    /// stake amounts of `amounts`, one after the other, or why the first of
    /// them that cannot be given its amount cannot.
    pub open spec fn bases_updated(self, ids: Seq<String>, amounts: Seq<u128>, k: int) -> Result<
        PoolView,
        Error,
    >
        decreases k,
    {
        if k <= 0 {
            Ok(self)
        } else {
            match self.bases_updated(ids, amounts, k - 1) {
                Err(e) => Err(e),
                Ok(pool) => pool.base_updated(ids[k - 1]@, amounts[k - 1]),
            }
        }
    }
}

/// Of two validators with the same account id written to a pool that has a
/// validator with it, one after the other, the second is what is left.
pub proof fn lemma_saved_twice(pool: PoolView, a: Validator, b: Validator)
    requires
        pool.has_id(a.account_id@),
        a.account_id@ == b.account_id@,
    ensures
        pool.saved(a).saved(b) == pool.saved(b),
{
    let id = a.account_id@;
    let i = pool.index_of(id);
    lemma_index_of(pool, id);
    let mid = pool.saved(a);
    assert(mid.validators[i].account_id@ == id);
    lemma_index_of_is(mid, id, i);
    assert(mid.validators.update(i, b) =~= pool.validators.update(i, b));
}

impl ValidatorPool {
    /// A copy of the pool.
    pub fn duplicate(&self) -> (copy: Self)
        ensures
            copy@ == self@,
    {
        let validators = self.get_validators(None, None);
        proof {
            assert(self@.validators.subrange(0, self@.validators.len() as int)
                =~= self@.validators);
        }
        ValidatorPool {
            validators,
            total_weight: self.total_weight,
            total_base_stake_amount: self.total_base_stake_amount,
        }
    }
}

impl Default for ValidatorPool {
    fn default() -> (pool: Self)
        ensures
            pool@.validators.len() == 0,
            pool@.total_weight == 0,
            pool@.total_base_stake_amount == 0,
    {
        Self::new()
    }
}

} // verus!
