//! The share of the rewards that goes to the beneficiaries.
//!
//! Of a reward, the beneficiaries get the part that their basis points state,
//! as new shares. Each but the last gets what its own part is worth, rounded
//! down; the last gets what is left of the shares that the parts of all are
//! worth together, so that no share goes missing and none is minted beyond
//! the whole.

use vstd::prelude::*;
use crate::contract::{shares_rounded_down, sum_bps, Beneficiary, Contract, ContractView};
use crate::errors::Error;
use crate::math::{lemma_mul_div_bound, lemma_quotient_lower_bound, mul_div_floor, mul_div_rem};
use crate::utils::bps_mul;
use vstd::arithmetic::div_mod::lemma_fundamental_div_mod;

verus! {

/// The sum of the numbers of `s`.
pub open spec fn seq_total(s: Seq<u128>) -> int
    decreases s.len(),
{
    if s.len() == 0 {
        0
    } else {
        seq_total(s.drop_last()) + s.last()
    }
}

/// The part of a reward of `rewards` that the beneficiary at place `i` gets
/// by its basis points, rounded down.
pub open spec fn cut_by_bps(beneficiaries: Seq<Beneficiary>, rewards: u128, i: int) -> int {
    rewards * beneficiaries[i].bps / 10_000
}

/// What the part of the beneficiary at place `i` is worth in shares, at the
/// price of `total_staked` over `total_shares`, rounded down.
pub open spec fn share_by_bps(
    total_shares: u128,
    total_staked: u128,
    beneficiaries: Seq<Beneficiary>,
    rewards: u128,
    i: int,
) -> int {
    mul_div_floor(
        total_shares as int,
        cut_by_bps(beneficiaries, rewards, i),
        total_staked as int,
    )
}

/// The parts of the first `k` beneficiaries, together.
pub open spec fn cuts_before(beneficiaries: Seq<Beneficiary>, rewards: u128, k: int) -> int
    decreases k,
{
    if k <= 0 {
        0
    } else {
        cuts_before(beneficiaries, rewards, k - 1) + cut_by_bps(beneficiaries, rewards, k - 1)
    }
}

/// What the parts of the first `k` beneficiaries are worth in shares, each
/// rounded down, together.
pub open spec fn paid_before(
    total_shares: u128,
    total_staked: u128,
    beneficiaries: Seq<Beneficiary>,
    rewards: u128,
    k: int,
) -> int
    decreases k,
{
    if k <= 0 {
        0
    } else {
        paid_before(total_shares, total_staked, beneficiaries, rewards, k - 1) + share_by_bps(
            total_shares,
            total_staked,
            beneficiaries,
            rewards,
            k - 1,
        )
    }
}

/// The shares that a reward of `rewards` mints for all beneficiaries
/// together, at the price of `total_staked` over `total_shares`: what their
/// basis points of the reward are worth, rounded down.
pub open spec fn total_reward_shares(
    total_shares: u128,
    total_staked: u128,
    beneficiaries: Seq<Beneficiary>,
    rewards: u128,
) -> int {
    shares_rounded_down(
        total_shares,
        total_staked,
        (rewards * sum_bps(beneficiaries) / 10_000) as u128,
    )
}

/// What the beneficiary at place `i` gets: what its part is worth, or, for
/// the last one, what the others leave of the shares for all.
pub open spec fn reward_share(
    total_shares: u128,
    total_staked: u128,
    beneficiaries: Seq<Beneficiary>,
    rewards: u128,
    i: int,
) -> int {
    if i == beneficiaries.len() - 1 {
        total_reward_shares(total_shares, total_staked, beneficiaries, rewards) - paid_before(
            total_shares,
            total_staked,
            beneficiaries,
            rewards,
            i,
        )
    } else {
        share_by_bps(total_shares, total_staked, beneficiaries, rewards, i)
    }
}

/// What `reward_shares` returns: the shares for each beneficiary, or why there are none.
pub open spec fn distribution(
    total_shares: u128,
    total_staked: u128,
    beneficiaries: Seq<Beneficiary>,
    rewards: u128,
) -> Result<Seq<u128>, Error> {
    let total = total_reward_shares(total_shares, total_staked, beneficiaries, rewards);
    if total_staked == 0 {
        Err(Error::NonPositiveTotalStakedBalance)
    } else if total > u128::MAX {
        Err(Error::ArithmeticOverflow)
    } else if exists|i: int|
        0 <= i < beneficiaries.len() && reward_share(
            total_shares,
            total_staked,
            beneficiaries,
            rewards,
            i,
        ) == 0 {
        Err(Error::NonPositiveShares)
    } else if beneficiaries.len() > 0 && total_shares + total > u128::MAX {
        Err(Error::ArithmeticOverflow)
    } else {
        Ok(
            Seq::new(
                beneficiaries.len(),
                |i: int|
                    reward_share(total_shares, total_staked, beneficiaries, rewards, i) as u128,
            ),
        )
    }
}

/// The basis points of the first `k` beneficiaries are no more than those of all.
pub proof fn lemma_bps_prefix(s: Seq<Beneficiary>, k: int)
    requires
        0 <= k <= s.len(),
    ensures
        0 <= sum_bps(s.take(k)) <= sum_bps(s),
        k < s.len() ==> sum_bps(s.take(k + 1)) == sum_bps(s.take(k)) + s[k].bps,
        k < s.len() ==> s[k].bps <= sum_bps(s),
    decreases s.len(),
{
    if k == s.len() {
        assert(s.take(k) =~= s);
        if s.len() > 0 {
            lemma_bps_prefix(s.drop_last(), k - 1);
        }
    } else {
        lemma_bps_prefix(s.drop_last(), k);
        assert(s.drop_last().take(k) =~= s.take(k));
        assert(s.take(k + 1).drop_last() =~= s.take(k));
        if k + 1 < s.len() {
            assert(s.drop_last().take(k + 1) =~= s.take(k + 1));
        } else {
            assert(s.take(k + 1) =~= s);
        }
    }
}

/// What the first `k` beneficiaries get for their own parts is together no
/// more than the shares for all.
pub proof fn lemma_paid_bound(
    total_shares: u128,
    total_staked: u128,
    beneficiaries: Seq<Beneficiary>,
    rewards: u128,
    k: int,
)
    requires
        total_staked > 0,
        0 <= k <= beneficiaries.len(),
        sum_bps(beneficiaries) <= 10_000,
    ensures
        0 <= cuts_before(beneficiaries, rewards, k),
        cuts_before(beneficiaries, rewards, k) * 10_000 <= rewards * sum_bps(
            beneficiaries.take(k),
        ),
        0 <= paid_before(total_shares, total_staked, beneficiaries, rewards, k),
        paid_before(total_shares, total_staked, beneficiaries, rewards, k) * total_staked
            <= total_shares * cuts_before(beneficiaries, rewards, k),
        paid_before(total_shares, total_staked, beneficiaries, rewards, k) <= total_reward_shares(
            total_shares,
            total_staked,
            beneficiaries,
            rewards,
        ),
        k < beneficiaries.len() ==> 0 <= cut_by_bps(beneficiaries, rewards, k) <= rewards && 0
            <= share_by_bps(total_shares, total_staked, beneficiaries, rewards, k),
    decreases k,
{
    let t = total_shares as int;
    let s = total_staked as int;
    let r = rewards as int;
    lemma_bps_prefix(beneficiaries, k);
    if k > 0 {
        lemma_paid_bound(total_shares, total_staked, beneficiaries, rewards, k - 1);
        lemma_bps_prefix(beneficiaries, k - 1);
        let b = beneficiaries[k - 1].bps as int;
        let cut = cut_by_bps(beneficiaries, rewards, k - 1);
        let share = share_by_bps(total_shares, total_staked, beneficiaries, rewards, k - 1);
        let cuts = cuts_before(beneficiaries, rewards, k - 1);
        let paid = paid_before(total_shares, total_staked, beneficiaries, rewards, k - 1);
        let bps = sum_bps(beneficiaries.take(k - 1));
        lemma_fundamental_div_mod(r * b, 10_000);
        assert(0 <= t * cut) by (nonlinear_arith)
            requires
                0 <= t,
                0 <= cut,
        ;
        lemma_fundamental_div_mod(t * cut, s);
        assert((cuts + cut) * 10_000 <= r * (bps + b)) by (nonlinear_arith)
            requires
                cuts * 10_000 <= r * bps,
                r * b == 10_000 * cut + (r * b) % 10_000,
                0 <= (r * b) % 10_000,
        ;
        assert((paid + share) * s <= t * (cuts + cut)) by (nonlinear_arith)
            requires
                paid * s <= t * cuts,
                t * cut == s * share + (t * cut) % s,
                0 <= (t * cut) % s,
        ;
    }
    if k < beneficiaries.len() {
        lemma_mul_div_bound(r, beneficiaries[k].bps as int, 10_000);
        let cut = cut_by_bps(beneficiaries, rewards, k);
        assert(0 <= t * cut) by (nonlinear_arith)
            requires
                0 <= t,
                0 <= cut,
        ;
        vstd::arithmetic::div_mod::lemma_div_is_ordered(0, t * cut, s);
    }
    // the parts are together no more than the part of all, and so are their worths
    let cuts = cuts_before(beneficiaries, rewards, k);
    let paid = paid_before(total_shares, total_staked, beneficiaries, rewards, k);
    let all = sum_bps(beneficiaries);
    lemma_mul_div_bound(r, all, 10_000);
    let total_cut = (r * all) / 10_000;
    assert(cuts * 10_000 <= r * all) by (nonlinear_arith)
        requires
            cuts * 10_000 <= r * sum_bps(beneficiaries.take(k)),
            sum_bps(beneficiaries.take(k)) <= all,
            0 <= r,
    ;
    lemma_quotient_lower_bound(r * all, 10_000, cuts);
    assert(paid * s <= t * total_cut) by (nonlinear_arith)
        requires
            paid * s <= t * cuts,
            cuts <= total_cut,
            0 <= t,
    ;
    lemma_quotient_lower_bound(t * total_cut, s, paid);
}

/// The shares that a reward mints are no more than the reward has units,
/// while a share is worth one unit at least once the reward is added.
pub proof fn lemma_reward_shares_at_most_reward(
    total_shares: u128,
    total_staked: u128,
    beneficiaries: Seq<Beneficiary>,
    rewards: u128,
)
    requires
        total_shares <= total_staked,
        total_staked > 0,
        0 <= sum_bps(beneficiaries) <= 10_000,
    ensures
        0 <= total_reward_shares(total_shares, total_staked, beneficiaries, rewards) <= rewards,
{
    lemma_mul_div_bound(rewards as int, sum_bps(beneficiaries), 10_000);
    let part = (rewards * sum_bps(beneficiaries) / 10_000) as u128;
    lemma_mul_div_bound(part as int, total_shares as int, total_staked as int);
}

/// The shares of all beneficiaries are together the whole that was to be
/// minted for them: nothing of it is left over and nothing is minted beyond it.
pub proof fn lemma_distribution_total(
    total_shares: u128,
    total_staked: u128,
    beneficiaries: Seq<Beneficiary>,
    rewards: u128,
)
    requires
        distribution(total_shares, total_staked, beneficiaries, rewards) is Ok,
        beneficiaries.len() > 0,
        sum_bps(beneficiaries) <= 10_000,
    ensures
        seq_total(distribution(total_shares, total_staked, beneficiaries, rewards)->Ok_0)
            == total_reward_shares(total_shares, total_staked, beneficiaries, rewards),
        forall|i: int|
            0 <= i < beneficiaries.len() ==> #[trigger] distribution(
                total_shares,
                total_staked,
                beneficiaries,
                rewards,
            )->Ok_0[i] > 0,
{
    let total = total_reward_shares(total_shares, total_staked, beneficiaries, rewards);
    let shares = distribution(total_shares, total_staked, beneficiaries, rewards)->Ok_0;
    let n = beneficiaries.len() as int;
    lemma_paid_bound(total_shares, total_staked, beneficiaries, rewards, n - 1);
    assert forall|i: int| 0 <= i < n implies 0 < #[trigger] reward_share(
        total_shares,
        total_staked,
        beneficiaries,
        rewards,
        i,
    ) <= total by {
        lemma_paid_bound(total_shares, total_staked, beneficiaries, rewards, i);
        lemma_paid_bound(total_shares, total_staked, beneficiaries, rewards, i + 1);
    }
    assert forall|i: int| 0 <= i < n - 1 implies shares.drop_last()[i] == share_by_bps(
        total_shares,
        total_staked,
        beneficiaries,
        rewards,
        i,
    ) by {
        assert(shares[i] == reward_share(total_shares, total_staked, beneficiaries, rewards, i));
    }
    lemma_prefix_total(total_shares, total_staked, beneficiaries, rewards, shares.drop_last(), n - 1);
    assert(shares.last() == total - paid_before(
        total_shares,
        total_staked,
        beneficiaries,
        rewards,
        n - 1,
    ));
}

/// A sequence that holds what the first `k` beneficiaries get for their own parts sums up to it.
proof fn lemma_prefix_total(
    total_shares: u128,
    total_staked: u128,
    beneficiaries: Seq<Beneficiary>,
    rewards: u128,
    shares: Seq<u128>,
    k: int,
)
    requires
        0 <= k <= beneficiaries.len(),
        shares.len() == k,
        forall|i: int|
            0 <= i < k ==> shares[i] == share_by_bps(
                total_shares,
                total_staked,
                beneficiaries,
                rewards,
                i,
            ),
    ensures
        seq_total(shares) == paid_before(total_shares, total_staked, beneficiaries, rewards, k),
    decreases k,
{
    if k > 0 {
        lemma_prefix_total(
            total_shares,
            total_staked,
            beneficiaries,
            rewards,
            shares.drop_last(),
            k - 1,
        );
    }
}

/// The numbers of the first `k` places of `s` sum up to no more than all of them.
pub proof fn lemma_seq_total_prefix(s: Seq<u128>, k: int)
    requires
        0 <= k <= s.len(),
    ensures
        0 <= seq_total(s.take(k)) <= seq_total(s),
        k < s.len() ==> seq_total(s.take(k + 1)) == seq_total(s.take(k)) + s[k],
    decreases s.len(),
{
    if k == s.len() {
        assert(s.take(k) =~= s);
        if s.len() > 0 {
            lemma_seq_total_prefix(s.drop_last(), k - 1);
        }
    } else {
        lemma_seq_total_prefix(s.drop_last(), k);
        assert(s.drop_last().take(k) =~= s.take(k));
        assert(s.take(k + 1).drop_last() =~= s.take(k));
    }
}

/// The sum of `shares`.
pub fn total_of(shares: &Vec<u128>) -> (total: u128)
    requires
        seq_total(shares@) <= u128::MAX,
    ensures
        total == seq_total(shares@),
{
    let mut total: u128 = 0;
    let mut k: usize = 0;
    while k < shares.len()
        invariant
            k <= shares.len(),
            seq_total(shares@) <= u128::MAX,
            total == seq_total(shares@.take(k as int)),
        decreases shares.len() - k,
    {
        proof {
            lemma_seq_total_prefix(shares@, k as int);
            lemma_seq_total_prefix(shares@, k + 1);
        }
        total = total + shares[k];
        k += 1;
    }
    proof {
        assert(shares@.take(k as int) =~= shares@);
    }
    total
}

/// The basis points of all beneficiaries together.
pub fn sum_of_bps(beneficiaries: &Vec<Beneficiary>) -> (total_bps: u32)
    requires
        sum_bps(beneficiaries@) <= 10_000,
    ensures
        total_bps == sum_bps(beneficiaries@),
{
    let n = beneficiaries.len();
    let mut total_bps: u32 = 0;
    let mut k: usize = 0;
    while k < n
        invariant
            k <= n,
            n == beneficiaries@.len(),
            sum_bps(beneficiaries@) <= 10_000,
            total_bps == sum_bps(beneficiaries@.take(k as int)),
        decreases n - k,
    {
        proof {
            lemma_bps_prefix(beneficiaries@, k as int);
            lemma_bps_prefix(beneficiaries@, k + 1);
        }
        total_bps = total_bps + beneficiaries[k].bps;
        k += 1;
    }
    proof {
        assert(beneficiaries@.take(n as int) =~= beneficiaries@);
    }
    total_bps
}

/// The shares that a reward of `rewards` mints for all beneficiaries together.
///
/// Refused when nothing is staked, and when the number of shares does not fit.
fn reward_total(
    total_share_amount: u128,
    total_staked_near_amount: u128,
    beneficiaries: &Vec<Beneficiary>,
    rewards: u128,
) -> (r: Result<u128, Error>)
    requires
        sum_bps(beneficiaries@) <= 10_000,
    ensures
        r == (if total_staked_near_amount == 0 {
            Err::<u128, Error>(Error::NonPositiveTotalStakedBalance)
        } else if total_reward_shares(
            total_share_amount,
            total_staked_near_amount,
            beneficiaries@,
            rewards,
        ) > u128::MAX {
            Err::<u128, Error>(Error::ArithmeticOverflow)
        } else {
            Ok::<u128, Error>(
                total_reward_shares(
                    total_share_amount,
                    total_staked_near_amount,
                    beneficiaries@,
                    rewards,
                ) as u128,
            )
        }),
        0 <= sum_bps(beneficiaries@),
{
    let total_bps = sum_of_bps(beneficiaries);
    proof {
        lemma_mul_div_bound(rewards as int, total_bps as int, 10_000);
    }
    let total_reward_near_amount = bps_mul(rewards, total_bps);
    if total_staked_near_amount == 0 {
        return Err(Error::NonPositiveTotalStakedBalance);
    }
    match mul_div_rem(total_share_amount, total_reward_near_amount, total_staked_near_amount) {
        Some((q, _)) => Ok(q),
        None => Err(Error::ArithmeticOverflow),
    }
}

/// The shares that a reward of `rewards` mints for each beneficiary, in their
/// order, at the price of `total_staked_near_amount` over `total_share_amount`.
///
/// Refused when nothing is staked, when the number of shares does not fit,
/// and when a beneficiary would get no share.
pub fn reward_shares(
    total_share_amount: u128,
    total_staked_near_amount: u128,
    beneficiaries: &Vec<Beneficiary>,
    rewards: u128,
) -> (r: Result<Vec<u128>, Error>)
    requires
        sum_bps(beneficiaries@) <= 10_000,
    ensures
        r is Ok <==> distribution(
            total_share_amount,
            total_staked_near_amount,
            beneficiaries@,
            rewards,
        ) is Ok,
        r matches Err(e) ==> distribution(
            total_share_amount,
            total_staked_near_amount,
            beneficiaries@,
            rewards,
        ) == Err::<Seq<u128>, Error>(e),
        r matches Ok(shares) ==> {
            &&& shares@ == distribution(
                total_share_amount,
                total_staked_near_amount,
                beneficiaries@,
                rewards,
            )->Ok_0
            &&& shares@.len() == beneficiaries@.len()
            &&& forall|i: int| 0 <= i < shares@.len() ==> shares@[i] > 0
            &&& beneficiaries@.len() > 0 ==> seq_total(shares@) == total_reward_shares(
                total_share_amount,
                total_staked_near_amount,
                beneficiaries@,
                rewards,
            )
            &&& beneficiaries@.len() == 0 ==> seq_total(shares@) == 0
        },
{
    let ghost bens = beneficiaries@;
    let n = beneficiaries.len();
    let total = match reward_total(
        total_share_amount,
        total_staked_near_amount,
        beneficiaries,
        rewards,
    ) {
        Ok(t) => t,
        Err(e) => {
            return Err(e);
        },
    };
    let mut shares: Vec<u128> = Vec::new();
    if n == 0 {
        proof {
            assert(shares@ =~= distribution(
                total_share_amount,
                total_staked_near_amount,
                bens,
                rewards,
            )->Ok_0);
        }
        return Ok(shares);
    }
    let mut remain: u128 = total;
    let mut i: usize = 0;
    while i < n - 1
        invariant
            0 < n == bens.len(),
            i <= n - 1,
            bens == beneficiaries@,
            sum_bps(bens) <= 10_000,
            total_staked_near_amount > 0,
            total == total_reward_shares(
                total_share_amount,
                total_staked_near_amount,
                bens,
                rewards,
            ),
            shares@.len() == i,
            forall|j: int|
                0 <= j < i ==> shares@[j] == share_by_bps(
                    total_share_amount,
                    total_staked_near_amount,
                    bens,
                    rewards,
                    j,
                ) && shares@[j] > 0,
            remain == total - paid_before(
                total_share_amount,
                total_staked_near_amount,
                bens,
                rewards,
                i as int,
            ),
        decreases n - 1 - i,
    {
        proof {
            lemma_paid_bound(
                total_share_amount,
                total_staked_near_amount,
                bens,
                rewards,
                i as int,
            );
            lemma_paid_bound(total_share_amount, total_staked_near_amount, bens, rewards, i + 1);
            lemma_bps_prefix(bens, i as int);
        }
        let cut = bps_mul(rewards, beneficiaries[i].bps);
        let part = match mul_div_rem(total_share_amount, cut, total_staked_near_amount) {
            Some((q, _)) => q,
            None => 0,
        };
        if part == 0 {
            proof {
                assert(reward_share(
                    total_share_amount,
                    total_staked_near_amount,
                    bens,
                    rewards,
                    i as int,
                ) == 0);
            }
            return Err(Error::NonPositiveShares);
        }
        shares.push(part);
        remain = remain - part;
        i += 1;
    }
    if remain == 0 {
        proof {
            assert(reward_share(
                total_share_amount,
                total_staked_near_amount,
                bens,
                rewards,
                n - 1,
            ) == 0);
        }
        return Err(Error::NonPositiveShares);
    }
    proof {
        lemma_paid_bound(total_share_amount, total_staked_near_amount, bens, rewards, n - 1);
        assert forall|j: int| 0 <= j < bens.len() implies reward_share(
            total_share_amount,
            total_staked_near_amount,
            bens,
            rewards,
            j,
        ) != 0 by {
            if j < n - 1 {
                assert(shares@[j] > 0);
            }
        }
    }
    if total > u128::MAX - total_share_amount {
        return Err(Error::ArithmeticOverflow);
    }
    shares.push(remain);
    proof {
        assert(shares@ =~= distribution(
            total_share_amount,
            total_staked_near_amount,
            bens,
            rewards,
        )->Ok_0);
        lemma_distribution_total(total_share_amount, total_staked_near_amount, bens, rewards);
    }
    Ok(shares)
}

impl Contract {
    /// Mints the beneficiaries' shares of a reward of `rewards`, which has been added to
    /// the staked amount already, and returns the shares of each, in their order.
    ///
    /// Refused as `reward_shares` says.
    pub fn internal_distribute_staking_rewards(&mut self, rewards: u128) -> (r: Result<
        Vec<u128>,
        Error,
    >)
        requires
            old(self).wf(),
        ensures
            final(self).wf(),
            r is Ok <==> distribution(
                old(self)@.total_share_amount,
                old(self)@.total_staked_near_amount,
                old(self)@.beneficiaries,
                rewards,
            ) is Ok,
            r matches Err(e) ==> final(self)@ == old(self)@ && distribution(
                old(self)@.total_share_amount,
                old(self)@.total_staked_near_amount,
                old(self)@.beneficiaries,
                rewards,
            ) == Err::<Seq<u128>, Error>(e),
            r matches Ok(shares) ==> {
                &&& shares@ == distribution(
                    old(self)@.total_share_amount,
                    old(self)@.total_staked_near_amount,
                    old(self)@.beneficiaries,
                    rewards,
                )->Ok_0
                &&& final(self)@ == (ContractView {
                    total_share_amount: (old(self)@.total_share_amount + seq_total(
                        shares@,
                    )) as u128,
                    ..old(self)@
                })
                &&& old(self)@.total_share_amount + seq_total(shares@) <= u128::MAX
            },
    {
        let shares = match reward_shares(
            self.total_share_amount,
            self.total_staked_near_amount,
            &self.beneficiaries,
            rewards,
        ) {
            Ok(s) => s,
            Err(e) => {
                return Err(e);
            },
        };
        self.total_share_amount = self.total_share_amount + total_of(&shares);
        Ok(shares)
    }
}

} // verus!
