//! The beneficiaries of the rewards, as the owner of the pool sets them.

use vstd::prelude::*;
use crate::contract::{sum_bps, Beneficiary, Contract, ContractView};
use crate::errors::Error;
use crate::utils::{FULL_BASIS_POINTS, MAX_BENEFICIARIES};

verus! {

/// Replacing one beneficiary changes the sum of the basis points by the
/// difference between the two.
pub proof fn lemma_bps_update(s: Seq<Beneficiary>, i: int, b: Beneficiary)
    requires
        0 <= i < s.len(),
    ensures
        sum_bps(s.update(i, b)) == sum_bps(s) - s[i].bps + b.bps,
        0 <= s[i].bps <= sum_bps(s),
    decreases s.len(),
{
    let t = s.update(i, b);
    lemma_bps_nonnegative(s.drop_last());
    if i == s.len() - 1 {
        assert(t.drop_last() =~= s.drop_last());
    } else {
        lemma_bps_update(s.drop_last(), i, b);
        assert(t.drop_last() =~= s.drop_last().update(i, b));
    }
}

/// The sum of the basis points is a natural number.
pub proof fn lemma_bps_nonnegative(s: Seq<Beneficiary>)
    ensures
        0 <= sum_bps(s),
    decreases s.len(),
{
    if s.len() > 0 {
        lemma_bps_nonnegative(s.drop_last());
    }
}

impl ContractView {
    /// Whether there is a beneficiary with the account id `id`.
    pub open spec fn has_beneficiary(self, id: Seq<char>) -> bool {
        exists|i: int| 0 <= i < self.beneficiaries.len() && self.beneficiaries[i].account_id@ == id
    }

    /// The place of the beneficiary with the account id `id`.
    pub open spec fn beneficiary_index(self, id: Seq<char>) -> int {
        choose|i: int| 0 <= i < self.beneficiaries.len() && self.beneficiaries[i].account_id@ == id
    }

    /// The basis points of the account `id`: none when it is no beneficiary.
    pub open spec fn bps_of(self, id: Seq<char>) -> int {
        if self.has_beneficiary(id) {
            self.beneficiaries[self.beneficiary_index(id)].bps as int
        } else {
            0
        }
    }

    /// What `set_beneficiary` returns.
    pub open spec fn set_beneficiary_check(self, id: Seq<char>, bps: u32) -> Result<(), Error> {
        if self.beneficiaries.len() == MAX_BENEFICIARIES && !self.has_beneficiary(id) {
            Err(Error::TooManyBeneficiaries)
        } else if sum_bps(self.beneficiaries) - self.bps_of(id) + bps > FULL_BASIS_POINTS {
            Err(Error::BpsSumOne)
        } else {
            Ok(())
        }
    }
}

impl Contract {
    /// The place of the beneficiary with the account id `account_id`, if there is one.
    fn beneficiary_position(&self, account_id: &String) -> (place: Option<usize>)
        requires
            self@.beneficiaries_wf(),
        ensures
            place is Some <==> self@.has_beneficiary(account_id@),
            place matches Some(i) ==> i == self@.beneficiary_index(account_id@) && i
                < self@.beneficiaries.len(),
    {
        let mut i: usize = 0;
        while i < self.beneficiaries.len()
            invariant
                i <= self.beneficiaries.len(),
                self@.beneficiaries_wf(),
                forall|j: int| 0 <= j < i ==> self@.beneficiaries[j].account_id@ != account_id@,
            decreases self.beneficiaries.len() - i,
        {
            if self.beneficiaries[i].account_id == *account_id {
                proof {
                    let k = self@.beneficiary_index(account_id@);
                    assert(self@.beneficiaries[i as int].account_id@ == account_id@);
                    assert(k == i);
                }
                return Some(i);
            }
            i += 1;
        }
        None
    }

    /// Gives the account `account_id` the basis points `bps` of the rewards,
    /// in place of those it had, or as a new beneficiary after the others.
    ///
    /// Refused for a new beneficiary when there are as many as allowed, and
    /// when the basis points of all beneficiaries would be more than all there are.
    pub fn set_beneficiary(&mut self, account_id: &String, bps: u32) -> (r: Result<(), Error>)
        requires
            old(self).wf(),
        ensures
            final(self).wf(),
            r == old(self)@.set_beneficiary_check(account_id@, bps),
            r is Err ==> final(self)@ == old(self)@,
            r is Ok ==> final(self)@.bps_of(account_id@) == bps && sum_bps(
                final(self)@.beneficiaries,
            ) == sum_bps(old(self)@.beneficiaries) - old(self)@.bps_of(account_id@) + bps,
            r is Ok && old(self)@.has_beneficiary(account_id@) ==> {
                let i = old(self)@.beneficiary_index(account_id@);
                final(self)@ == (ContractView {
                    beneficiaries: old(self)@.beneficiaries.update(
                        i,
                        Beneficiary { bps, ..old(self)@.beneficiaries[i] },
                    ),
                    ..old(self)@
                })
            },
            r is Ok && !old(self)@.has_beneficiary(account_id@) ==> {
                &&& final(self)@.beneficiaries.len() == old(self)@.beneficiaries.len() + 1
                &&& final(self)@.beneficiaries.last().account_id@ == account_id@
                &&& final(self)@.beneficiaries.last().bps == bps
                &&& final(self)@ == (ContractView {
                    beneficiaries: old(self)@.beneficiaries.push(
                        final(self)@.beneficiaries.last(),
                    ),
                    ..old(self)@
                })
            },
    {
        let place = self.beneficiary_position(account_id);
        if self.beneficiaries.len() == MAX_BENEFICIARIES as usize && place.is_none() {
            return Err(Error::TooManyBeneficiaries);
        }
        let bps_sum = crate::internal::sum_of_bps(&self.beneficiaries);
        let old_value = match place {
            Some(i) => self.beneficiaries[i].bps,
            None => 0,
        };
        proof {
            if let Some(i) = place {
                lemma_bps_update(self@.beneficiaries, i as int, self@.beneficiaries[i as int]);
            }
        }
        if bps > FULL_BASIS_POINTS - (bps_sum - old_value) {
            return Err(Error::BpsSumOne);
        }
        match place {
            Some(i) => {
                let beneficiary = Beneficiary {
                    account_id: self.beneficiaries[i].account_id.clone(),
                    bps,
                };
                proof {
                    lemma_bps_update(self@.beneficiaries, i as int, beneficiary);
                }
                self.beneficiaries.set(i, beneficiary);
                proof {
                    assert(self@.beneficiaries[i as int].account_id@ == account_id@);
                    let k = self@.beneficiary_index(account_id@);
                    assert(k == i);
                }
            },
            None => {
                let beneficiary = Beneficiary { account_id: account_id.clone(), bps };
                proof {
                    assert(self@.beneficiaries.push(beneficiary).drop_last()
                        =~= self@.beneficiaries);
                }
                self.beneficiaries.push(beneficiary);
                proof {
                    let n = self@.beneficiaries.len() - 1;
                    assert(self@.beneficiaries[n].account_id@ == account_id@);
                    let k = self@.beneficiary_index(account_id@);
                    assert(k == n);
                }
            },
        }
        Ok(())
    }

    /// Takes the account `account_id` out of the beneficiaries, the last of
    /// them moving into its place. Nothing changes when it is none of them.
    pub fn remove_beneficiary(&mut self, account_id: &String)
        requires
            old(self).wf(),
        ensures
            final(self).wf(),
            !final(self)@.has_beneficiary(account_id@),
            !old(self)@.has_beneficiary(account_id@) ==> final(self)@ == old(self)@,
            old(self)@.has_beneficiary(account_id@) ==> final(self)@ == (ContractView {
                beneficiaries: old(self)@.beneficiaries.update(
                    old(self)@.beneficiary_index(account_id@),
                    old(self)@.beneficiaries.last(),
                ).drop_last(),
                ..old(self)@
            }),
            sum_bps(final(self)@.beneficiaries) == sum_bps(old(self)@.beneficiaries) - old(self)@.bps_of(account_id@),
    {
        match self.beneficiary_position(account_id) {
            Some(i) => {
                proof {
                    let s = self@.beneficiaries;
                    lemma_bps_update(s, i as int, s.last());
                    assert(s.update(i as int, s.last()).last() == s.last());
                }
                self.beneficiaries.swap_remove(i);
            },
            None => {},
        }
    }

    /// Copies of the beneficiaries, in their order.
    pub fn get_beneficiaries(&self) -> (list: Vec<Beneficiary>)
        ensures
            list@ == self@.beneficiaries,
    {
        let mut list: Vec<Beneficiary> = Vec::new();
        let mut i: usize = 0;
        while i < self.beneficiaries.len()
            invariant
                i <= self.beneficiaries.len(),
                list@ == self@.beneficiaries.take(i as int),
            decreases self.beneficiaries.len() - i,
        {
            list.push(self.beneficiaries[i].clone());
            proof {
                assert(self@.beneficiaries.take(i + 1) =~= self@.beneficiaries.take(i as int).push(
                    self@.beneficiaries[i as int],
                ));
            }
            i += 1;
        }
        proof {
            assert(self@.beneficiaries.take(i as int) =~= self@.beneficiaries);
        }
        list
    }
}

} // verus!
