//! The pool driven through whole epochs against validators that answer as a
//! staking pool of the network would.

use lst::account::Account;
use lst::contract::Contract;
use lst::errors::Error;
use std::collections::HashMap;

const NEAR: u128 = 1_000_000_000_000_000_000_000_000;

fn near(n: u128) -> u128 {
    n * NEAR
}

fn millinear(n: u128) -> u128 {
    n * NEAR / 1000
}

fn id(name: &str) -> String {
    name.to_string()
}

/// A validator as the network sees it. It may keep a little of each stake or
/// unstake back, and it may stop answering.
#[derive(Default)]
struct MockValidator {
    staked: u128,
    unstaked: u128,
    staked_delta: u128,
    unstaked_delta: u128,
    get_account_fail: bool,
    panic: bool,
}

impl MockValidator {
    fn deposit_and_stake(&mut self, amount: u128) -> bool {
        if self.panic || amount == 0 {
            return false;
        }
        self.unstaked += self.unstaked_delta;
        self.staked = (self.staked + amount).saturating_sub(self.staked_delta);
        true
    }

    fn unstake(&mut self, amount: u128) -> bool {
        if self.panic || self.staked < amount {
            return false;
        }
        self.unstaked = self.unstaked + amount + self.unstaked_delta;
        self.staked = (self.staked - amount).saturating_sub(self.staked_delta);
        true
    }

    fn withdraw(&mut self, amount: u128) -> bool {
        if self.panic || self.unstaked < amount {
            return false;
        }
        self.unstaked -= amount;
        true
    }

    fn get_account(&self) -> Option<(u128, u128)> {
        if self.panic || self.get_account_fail {
            None
        } else {
            Some((self.staked, self.unstaked))
        }
    }

    fn get_account_total_balance(&self) -> Option<u128> {
        if self.panic {
            None
        } else {
            Some(self.staked + self.unstaked)
        }
    }
}

/// The host of the pool: the clock, the pool's own balance, the accounts, the
/// ledger of the shares and the validators.
struct Sim {
    core: Contract,
    epoch: u64,
    balance: u128,
    accounts: HashMap<String, Account>,
    shares: HashMap<String, u128>,
    validators: HashMap<String, MockValidator>,
}

impl Sim {
    fn new() -> Sim {
        let core = Contract::new(near(100)).unwrap();
        let mut shares = HashMap::new();
        shares.insert(id("lst"), near(10));
        Sim {
            core,
            epoch: 10,
            balance: near(100),
            accounts: HashMap::new(),
            shares,
            validators: HashMap::new(),
        }
    }

    fn add_validator(&mut self, name: &str, weight: u16) {
        self.validators.insert(id(name), MockValidator::default());
        self.core.is_whitelisted_callback(&id(name), weight, true).unwrap();
    }

    fn share_balance(&self, who: &str) -> u128 {
        *self.shares.get(who).unwrap_or(&0)
    }

    fn account(&self, who: &str) -> Account {
        *self.accounts.get(who).unwrap_or(&Account::default())
    }

    fn deposit(&mut self, who: &str, amount: u128) -> Result<(), Error> {
        let mut account = self.account(who);
        self.core.deposit(&mut account, amount, 0)?;
        self.accounts.insert(id(who), account);
        self.balance += amount;
        Ok(())
    }

    fn stake(&mut self, who: &str, amount: u128) -> Result<u128, Error> {
        let mut account = self.account(who);
        let minted = self.core.stake(&mut account, amount)?;
        self.accounts.insert(id(who), account);
        *self.shares.entry(id(who)).or_insert(0) += minted;
        Ok(minted)
    }

    fn stake_all(&mut self, who: &str) -> Result<u128, Error> {
        let mut account = self.account(who);
        let minted = self.core.stake_all(&mut account)?;
        self.accounts.insert(id(who), account);
        *self.shares.entry(id(who)).or_insert(0) += minted;
        Ok(minted)
    }

    fn deposit_and_stake(&mut self, who: &str, amount: u128) -> Result<u128, Error> {
        let mut account = self.account(who);
        let minted = self.core.deposit_and_stake(&mut account, amount, 0)?;
        self.accounts.insert(id(who), account);
        self.balance += amount;
        *self.shares.entry(id(who)).or_insert(0) += minted;
        Ok(minted)
    }

    fn unstake(&mut self, who: &str, amount: u128) -> Result<u128, Error> {
        let mut account = self.account(who);
        let burnt = self
            .core
            .unstake(&mut account, self.share_balance(who), amount, self.epoch)?;
        self.accounts.insert(id(who), account);
        *self.shares.get_mut(who).unwrap() -= burnt;
        Ok(burnt)
    }

    fn unstake_all(&mut self, who: &str) -> Result<u128, Error> {
        let mut account = self.account(who);
        let (amount, burnt) =
            self.core
                .unstake_all(&mut account, self.share_balance(who), self.epoch)?;
        self.accounts.insert(id(who), account);
        *self.shares.get_mut(who).unwrap() -= burnt;
        Ok(amount)
    }

    fn withdraw(&mut self, who: &str, amount: u128) -> Result<(), Error> {
        let mut account = self.account(who);
        self.core.withdraw(&mut account, amount, self.balance)?;
        self.accounts.insert(id(who), account);
        self.balance -= amount;
        Ok(())
    }

    fn withdraw_all(&mut self, who: &str) -> Result<u128, Error> {
        let mut account = self.account(who);
        let amount = self.core.withdraw_all(&mut account, self.balance)?;
        self.accounts.insert(id(who), account);
        self.balance -= amount;
        Ok(amount)
    }

    fn staked_balance(&self, who: &str) -> u128 {
        self.core
            .get_account_staked_balance(self.share_balance(who))
            .unwrap()
    }

    fn sync(&mut self, validator_id: &String) -> bool {
        let answer = self.validators[validator_id].get_account();
        self.core
            .validator_get_account_callback(validator_id, answer)
            .unwrap()
    }

    /// One trigger of a stake with all that follows it; whether to trigger again.
    fn epoch_stake(&mut self) -> Result<bool, Error> {
        let candidate = match self.core.epoch_stake(self.epoch, self.balance)? {
            Some(c) => c,
            None => return Ok(false),
        };
        let validator_id = candidate.validator.account_id.clone();
        let done = self
            .validators
            .get_mut(&validator_id)
            .unwrap()
            .deposit_and_stake(candidate.amount);
        if done {
            self.balance -= candidate.amount;
        }
        if self
            .core
            .validator_staked_callback(&validator_id, candidate.amount, done)?
        {
            Ok(self.sync(&validator_id))
        } else {
            Ok(false)
        }
    }

    /// One trigger of an unstake with all that follows it; whether to trigger again.
    fn epoch_unstake(&mut self) -> Result<bool, Error> {
        let candidate = match self.core.epoch_unstake(self.epoch)? {
            Some(c) => c,
            None => return Ok(false),
        };
        let validator_id = candidate.validator.account_id.clone();
        let done = self
            .validators
            .get_mut(&validator_id)
            .unwrap()
            .unstake(candidate.amount);
        if self
            .core
            .validator_unstaked_callback(&validator_id, candidate.amount, done)?
        {
            Ok(self.sync(&validator_id))
        } else {
            Ok(false)
        }
    }

    fn op_epoch_stake_all(&mut self) {
        while self.epoch_stake().unwrap() {}
    }

    fn op_epoch_unstake_all(&mut self) {
        while self.epoch_unstake().unwrap() {}
    }

    fn epoch_update_rewards(&mut self, name: &str) -> Result<Vec<u128>, Error> {
        let validator_id = id(name);
        self.core.epoch_update_rewards(&validator_id)?;
        let answer = self.validators[&validator_id].get_account_total_balance();
        let minted = self
            .core
            .validator_get_balance_callback(&validator_id, answer)?;
        let beneficiaries = self.core.get_beneficiaries();
        for (beneficiary, shares) in beneficiaries.iter().zip(minted.iter()) {
            *self.shares.entry(beneficiary.account_id.clone()).or_insert(0) += shares;
        }
        Ok(minted)
    }

    fn epoch_withdraw(&mut self, name: &str) -> Result<(), Error> {
        let validator_id = id(name);
        let amount = self.core.epoch_withdraw(&validator_id, self.epoch)?;
        let done = self
            .validators
            .get_mut(&validator_id)
            .unwrap()
            .withdraw(amount);
        if done {
            self.balance += amount;
        }
        self.core
            .validator_withdraw_callback(&validator_id, amount, done)
    }

    fn drain_unstake(&mut self, name: &str) -> Result<bool, Error> {
        let validator_id = id(name);
        let amount = self.core.drain_unstake(&validator_id, self.epoch)?;
        let done = self
            .validators
            .get_mut(&validator_id)
            .unwrap()
            .unstake(amount);
        if self
            .core
            .validator_drain_unstaked_callback(&validator_id, amount, done)?
        {
            Ok(self.sync(&validator_id))
        } else {
            Ok(false)
        }
    }

    fn drain_withdraw(&mut self, name: &str) -> Result<(), Error> {
        let validator_id = id(name);
        let amount = self.core.drain_withdraw(&validator_id, self.epoch)?;
        let done = self
            .validators
            .get_mut(&validator_id)
            .unwrap()
            .withdraw(amount);
        if done {
            self.balance += amount;
        }
        self.core
            .validator_drain_withdraw_callback(&validator_id, amount, done)
    }

    fn update_base_stake_amounts(&mut self, names: &[&str], amounts: Vec<u128>) {
        let ids: Vec<String> = names.iter().map(|n| id(n)).collect();
        self.core.update_base_stake_amounts(&ids, &amounts).unwrap();
    }

    fn check_validator_amount(
        &self,
        name: &str,
        staked_amount: u128,
        unstaked_amount: u128,
        base_stake_amount: Option<u128>,
        target_stake_amount: Option<u128>,
    ) {
        let validator = &self.validators[name];
        assert_eq!(validator.staked, staked_amount);
        assert_eq!(validator.unstaked, unstaked_amount);
        let info = self.core.get_validator(&id(name), self.epoch).unwrap();
        assert_eq!(info.staked_amount, staked_amount);
        assert_eq!(info.unstaked_amount, unstaked_amount);
        if let Some(base_stake_amount) = base_stake_amount {
            assert_eq!(info.base_stake_amount, base_stake_amount);
        }
        if let Some(target_stake_amount) = target_stake_amount {
            assert_eq!(info.target_stake_amount, target_stake_amount);
        }
    }

    fn three_validators() -> Sim {
        let mut sim = Sim::new();
        sim.add_validator("v1", 10);
        sim.add_validator("v2", 20);
        sim.add_validator("v3", 30);
        sim
    }
}

#[test]
fn test_epoch_stake() {
    let mut sim = Sim::three_validators();
    sim.deposit_and_stake("alice", near(50)).unwrap();

    // at this time there should be no NEAR actually staked on validators
    sim.check_validator_amount("v1", 0, 0, None, None);
    sim.check_validator_amount("v2", 0, 0, None, None);
    sim.check_validator_amount("v3", 0, 0, None, None);

    sim.op_epoch_stake_all();

    // 10 NEAR is staked already when the pool is created
    sim.check_validator_amount("v1", near(10), 0, None, None);
    sim.check_validator_amount("v2", near(20), 0, None, None);
    sim.check_validator_amount("v3", near(30), 0, None, None);

    sim.epoch = 11;
    sim.deposit_and_stake("bob", near(90)).unwrap();
    sim.op_epoch_stake_all();

    sim.check_validator_amount("v1", near(10 + 15), 0, None, None);
    sim.check_validator_amount("v2", near(20 + 30), 0, None, None);
    sim.check_validator_amount("v3", near(30 + 45), 0, None, None);

    // the base stake amount is met before any weighted share
    sim.update_base_stake_amounts(&["v1"], vec![near(20)]);
    sim.epoch = 12;
    sim.deposit_and_stake("bob", near(50)).unwrap();
    sim.op_epoch_stake_all();

    sim.check_validator_amount("v1", near(10 + 15 + 25), 0, Some(near(20)), Some(near(50)));
    sim.check_validator_amount("v2", near(20 + 30 + 10), 0, None, None);
    sim.check_validator_amount("v3", near(30 + 45 + 15), 0, None, None);
}

#[test]
fn test_epoch_stake_with_rounding_diff() {
    let mut sim = Sim::three_validators();
    sim.validators.get_mut("v1").unwrap().staked_delta = 1;
    sim.validators.get_mut("v1").unwrap().unstaked_delta = 1;

    sim.deposit_and_stake("alice", near(50)).unwrap();
    sim.op_epoch_stake_all();
    sim.check_validator_amount("v1", near(10) - 1, 1, None, None);
    sim.check_validator_amount("v2", near(20), 0, None, None);
    sim.check_validator_amount("v3", near(30), 0, None, None);

    sim.epoch = 11;
    sim.deposit_and_stake("bob", near(90)).unwrap();
    sim.op_epoch_stake_all();

    sim.check_validator_amount("v1", near(10 + 15) - 2, 2, None, None);
    sim.check_validator_amount("v2", near(20 + 30), 0, None, None);
    sim.check_validator_amount("v3", near(30 + 45), 0, None, None);

    sim.update_base_stake_amounts(&["v1"], vec![near(20)]);
    sim.epoch = 12;
    sim.deposit_and_stake("bob", near(50)).unwrap();
    sim.op_epoch_stake_all();

    // v1 is chosen first and takes 25 NEAR and 2 yocto to meet its target;
    // v3 comes next, being further under its target than v2;
    // v2 comes last and gets what is left, 2 yocto less than its share
    sim.check_validator_amount(
        "v1",
        near(10 + 15 + 25) - 1,
        3,
        Some(near(20)),
        Some(near(50)),
    );
    sim.check_validator_amount("v2", near(20 + 30 + 10) - 2, 0, None, None);
    sim.check_validator_amount("v3", near(30 + 45 + 15), 0, None, None);
}

#[test]
fn test_epoch_unstake() {
    let mut sim = Sim::three_validators();
    sim.deposit_and_stake("alice", near(110)).unwrap();
    sim.op_epoch_stake_all();

    sim.epoch = 14;
    sim.unstake("alice", near(30)).unwrap();

    // at this time no actual unstake should happen
    sim.check_validator_amount("v1", near(20), 0, None, None);
    sim.check_validator_amount("v2", near(40), 0, None, None);
    sim.check_validator_amount("v3", near(60), 0, None, None);

    sim.op_epoch_unstake_all();

    sim.check_validator_amount("v1", near(20), 0, None, None);
    sim.check_validator_amount("v2", millinear(32500), millinear(7500), None, None);
    sim.check_validator_amount("v3", millinear(37500), millinear(22500), None, None);

    sim.unstake("alice", near(18)).unwrap();

    // the epoch is settled already: nothing happens before the next one
    sim.op_epoch_unstake_all();
    sim.check_validator_amount("v1", near(20), 0, None, None);
    sim.check_validator_amount("v2", millinear(32500), millinear(7500), None, None);
    sim.check_validator_amount("v3", millinear(37500), millinear(22500), None, None);

    sim.epoch = 18;
    sim.op_epoch_unstake_all();

    sim.check_validator_amount("v1", near(12), near(8), None, None);
    sim.check_validator_amount("v2", millinear(22500), millinear(17500), None, None);
    sim.check_validator_amount("v3", millinear(37500), millinear(22500), None, None);

    sim.update_base_stake_amounts(&["v1"], vec![near(10)]);
    sim.epoch = 22;

    // 120 - 30 - 18 - 26 = 46 are left staked
    sim.unstake("alice", near(26)).unwrap();
    sim.op_epoch_unstake_all();

    sim.check_validator_amount("v1", near(12), near(8), Some(near(10)), Some(near(16)));
    sim.check_validator_amount("v2", near(16), near(24), Some(0), Some(near(12)));
    sim.check_validator_amount("v3", near(18), near(42), Some(0), Some(near(18)));

    sim.update_base_stake_amounts(&["v1"], vec![0]);
    sim.epoch = 26;

    // 120 - 30 - 18 - 26 - 10 = 36 are left staked
    sim.unstake("alice", near(10)).unwrap();
    sim.op_epoch_unstake_all();

    sim.check_validator_amount("v1", near(6), near(14), Some(0), Some(near(6)));
    sim.check_validator_amount("v2", near(12), near(28), Some(0), Some(near(12)));
    sim.check_validator_amount("v3", near(18), near(42), Some(0), Some(near(18)));
}

#[test]
fn test_epoch_rewards() {
    let mut sim = Sim::three_validators();
    sim.update_base_stake_amounts(&["v1"], vec![near(10)]);
    sim.deposit_and_stake("alice", near(60)).unwrap();
    sim.op_epoch_stake_all();

    assert_eq!(sim.core.total_share_amount, near(70));
    assert_eq!(sim.core.get_total_staked_balance(), near(70));

    sim.validators.get_mut("v1").unwrap().staked += near(2);
    sim.validators.get_mut("v2").unwrap().staked += near(2);
    sim.validators.get_mut("v3").unwrap().staked += near(3);

    assert!(sim.epoch_update_rewards("v1").unwrap().is_empty());
    assert!(sim.epoch_update_rewards("v2").unwrap().is_empty());
    assert!(sim.epoch_update_rewards("v3").unwrap().is_empty());

    assert_eq!(sim.core.total_share_amount, near(70));
    assert_eq!(sim.core.get_total_staked_balance(), near(77));

    sim.check_validator_amount("v1", near(22), 0, Some(near(11)), None);
    sim.check_validator_amount("v2", near(22), 0, Some(0), None);
    sim.check_validator_amount("v3", near(33), 0, Some(0), None);

    sim.core.set_beneficiary(&id("manager"), 1000).unwrap();

    sim.validators.get_mut("v1").unwrap().staked += near(2);
    let minted = sim.epoch_update_rewards("v1").unwrap();
    assert_eq!(minted, vec![177215189873417721518987]);

    assert_eq!(sim.core.total_share_amount, 70_177215189873417721518987);
    assert_eq!(sim.core.get_total_staked_balance(), near(79));
    assert_eq!(sim.share_balance("manager"), 177215189873417721518987);

    sim.check_validator_amount("v1", near(24), 0, Some(near(12)), None);
    sim.check_validator_amount("v2", near(22), 0, Some(0), None);
    sim.check_validator_amount("v3", near(33), 0, Some(0), None);

    sim.epoch = 14;

    // 79 - 67.5 = 11.5 are left staked
    sim.unstake("alice", millinear(67500)).unwrap();
    sim.op_epoch_unstake_all();

    sim.check_validator_amount("v1", millinear(11500), millinear(12500), Some(near(12)), None);
    sim.check_validator_amount("v2", 0, near(22), Some(0), None);
    sim.check_validator_amount("v3", 0, near(33), Some(0), None);

    sim.epoch = 18;
    sim.epoch_withdraw("v2").unwrap();

    sim.check_validator_amount("v1", millinear(11500), millinear(12500), Some(near(12)), None);
    sim.check_validator_amount("v2", 0, 0, Some(0), None);
    sim.check_validator_amount("v3", 0, near(33), Some(0), None);

    sim.validators.get_mut("v2").unwrap().staked += near(2);
    sim.epoch_update_rewards("v2").unwrap();

    sim.check_validator_amount("v1", millinear(11500), millinear(12500), Some(near(12)), None);
    sim.check_validator_amount("v2", near(2), 0, Some(0), None);
    sim.check_validator_amount("v3", 0, near(33), Some(0), None);
}

#[test]
fn test_epoch_withdraw() {
    let mut sim = Sim::three_validators();
    sim.deposit_and_stake("alice", near(110)).unwrap();
    sim.op_epoch_stake_all();

    sim.epoch = 11;
    sim.unstake("alice", near(30)).unwrap();
    sim.op_epoch_unstake_all();

    sim.check_validator_amount("v1", near(20), 0, None, None);
    sim.check_validator_amount("v2", millinear(32500), millinear(7500), None, None);
    sim.check_validator_amount("v3", millinear(37500), millinear(22500), None, None);

    assert_eq!(sim.epoch_withdraw("v2"), Err(Error::ValidatorWithdrawWhenLocked));
    assert_eq!(sim.epoch_withdraw("v3"), Err(Error::ValidatorWithdrawWhenLocked));
    assert_eq!(
        Error::ValidatorWithdrawWhenLocked.message(),
        "Cannot withdraw from a pending release validator"
    );

    sim.epoch = 15;
    let before = sim.balance;
    sim.epoch_withdraw("v2").unwrap();
    sim.epoch_withdraw("v3").unwrap();
    assert_eq!(sim.balance, before + near(30));

    sim.check_validator_amount("v1", near(20), 0, None, None);
    sim.check_validator_amount("v2", millinear(32500), 0, None, None);
    sim.check_validator_amount("v3", millinear(37500), 0, None, None);
}

#[test]
fn test_drain_constraints() {
    let mut sim = Sim::new();
    sim.add_validator("v1", 10);
    sim.update_base_stake_amounts(&["v1"], vec![near(20)]);
    sim.deposit_and_stake("alice", near(50)).unwrap();
    sim.op_epoch_stake_all();

    // 1. no drain while the validator has a weight
    assert_eq!(sim.drain_unstake("v1"), Err(Error::NonZeroWeight));
    sim.core.update_weight(&id("v1"), 0).unwrap();

    // 2. no drain while the validator has a base stake amount
    assert_eq!(sim.drain_unstake("v1"), Err(Error::NonZeroBaseStakeAmount));
    sim.update_base_stake_amounts(&["v1"], vec![0]);

    sim.epoch = 11;
    sim.unstake_all("alice").unwrap();
    sim.op_epoch_unstake_all();
    sim.check_validator_amount("v1", near(10), near(50), None, None);

    // 3. no drain while the validator is in its release period
    assert_eq!(sim.drain_unstake("v1"), Err(Error::ValidatorUnstakeWhenLocked));

    sim.epoch = 15;

    // 4. no drain while something is unstaked on the validator
    assert_eq!(sim.drain_unstake("v1"), Err(Error::BadUnstakedAmount));
}

#[test]
fn test_drain_unstake_withdraw() {
    let mut sim = Sim::new();
    sim.add_validator("v1", 10);
    sim.add_validator("v2", 10);
    sim.update_base_stake_amounts(&["v1"], vec![near(20)]);
    sim.deposit_and_stake("alice", near(50)).unwrap();
    sim.op_epoch_stake_all();
    sim.check_validator_amount("v1", near(40), 0, None, None);
    sim.check_validator_amount("v2", near(20), 0, None, None);

    sim.core.update_weight(&id("v1"), 0).unwrap();
    sim.update_base_stake_amounts(&["v1"], vec![0]);

    assert_eq!(sim.drain_unstake("v1"), Ok(true));
    assert_eq!(sim.core.get_validator(&id("v1"), sim.epoch).unwrap().draining, true);

    sim.epoch = 14;

    // the epoch's withdrawal is not for a validator that is being drained
    assert_eq!(sim.epoch_withdraw("v1"), Err(Error::Draining));

    sim.drain_withdraw("v1").unwrap();
    assert_eq!(sim.core.get_validator(&id("v1"), sim.epoch).unwrap().draining, false);
    sim.check_validator_amount("v1", 0, 0, None, None);
    sim.check_validator_amount("v2", near(20), 0, None, None);

    // what came back is staked elsewhere
    sim.op_epoch_stake_all();
    sim.check_validator_amount("v1", 0, 0, None, None);
    sim.check_validator_amount("v2", near(60), 0, None, None);
}

#[test]
fn test_drain_get_account_fail() {
    let mut sim = Sim::new();
    sim.add_validator("v1", 10);
    sim.deposit_and_stake("alice", near(50)).unwrap();
    sim.op_epoch_stake_all();
    sim.core.update_weight(&id("v1"), 0).unwrap();

    sim.validators.get_mut("v1").unwrap().get_account_fail = true;
    assert_eq!(sim.drain_unstake("v1"), Ok(true));

    // the unstake is booked, the balances are not read back, the guard is given back
    let info = sim.core.validator_pool.get_validator(&id("v1")).unwrap();
    assert_eq!(info.staked_amount, 0);
    assert_eq!(info.unstaked_amount, near(60));
    assert!(info.draining);
    assert!(!info.executing);
}

#[test]
fn test_account_initial_balance() {
    let sim = Sim::new();
    let account = sim.account("alice");
    assert_eq!(sim.staked_balance("alice"), 0);
    assert_eq!(sim.core.get_account_unstaked_balance(&account), 0);
    assert_eq!(sim.core.get_account_total_balance(&account, 0), Ok(0));
}

#[test]
fn test_account_deposit_zero() {
    let mut sim = Sim::new();
    assert_eq!(sim.deposit("alice", 0), Err(Error::NonPositiveDepositAmount));
    assert_eq!(
        Error::NonPositiveDepositAmount.message(),
        "Deposit amount should be positive"
    );
}

#[test]
fn test_account_deposit_then_stake() {
    let mut sim = Sim::new();
    sim.deposit("alice", near(10)).unwrap();
    assert_eq!(sim.account("alice").unstaked, near(10));

    assert_eq!(sim.stake("alice", near(9)), Ok(near(9)));
    assert_eq!(sim.staked_balance("alice"), near(9));
    assert_eq!(sim.account("alice").unstaked, near(10 - 9));

    assert_eq!(sim.stake_all("alice"), Ok(near(1)));
    assert_eq!(sim.staked_balance("alice"), near(10));
    assert_eq!(sim.account("alice").unstaked, 0);
}

#[test]
fn test_account_deposit_and_stake() {
    let mut sim = Sim::new();
    assert_eq!(sim.deposit_and_stake("alice", near(10)), Ok(near(10)));
    assert_eq!(sim.staked_balance("alice"), near(10));
    assert_eq!(sim.account("alice").unstaked, 0);
}

#[test]
fn test_account_unstake() {
    let mut sim = Sim::new();
    sim.deposit("alice", near(10)).unwrap();
    sim.stake("alice", near(9)).unwrap();
    sim.unstake("alice", near(5)).unwrap();
    assert_eq!(sim.staked_balance("alice"), near(9 - 5));
    assert_eq!(sim.account("alice").unstaked, near(10 - 9 + 5));
}

#[test]
fn test_account_unstake_and_withdraw() {
    let mut sim = Sim::new();
    sim.deposit("alice", near(10)).unwrap();
    sim.stake("alice", near(8)).unwrap();

    sim.withdraw("alice", near(1)).unwrap();
    assert_eq!(sim.staked_balance("alice"), near(8));
    assert_eq!(sim.account("alice").unstaked, near(10 - 8 - 1));

    sim.unstake("alice", near(5)).unwrap();
    assert_eq!(sim.withdraw_all("alice"), Err(Error::UnstakedBalanceNotAvailable));

    // four epochs later, once that epoch is settled, the balance is free
    sim.epoch += 4;
    assert_eq!(sim.withdraw_all("alice"), Err(Error::UnstakedBalanceNotAvailable));
    sim.core.epoch_cleanup(sim.epoch).unwrap();
    assert_eq!(sim.withdraw_all("alice"), Ok(near(6)));
    assert_eq!(sim.staked_balance("alice"), near(3));
    assert_eq!(sim.account("alice").unstaked, 0);

    assert_eq!(sim.unstake_all("alice"), Ok(near(3)));
    assert_eq!(sim.staked_balance("alice"), 0);
    assert_eq!(sim.account("alice").unstaked, near(3));

    // the unstake came after the settlement of its epoch: one epoch more
    sim.epoch += 5;
    sim.core.epoch_cleanup(sim.epoch).unwrap();
    sim.withdraw("alice", near(3)).unwrap();
    assert_eq!(sim.staked_balance("alice"), 0);
    assert_eq!(sim.account("alice").unstaked, 0);
}

#[test]
fn test_account_late_unstake_and_withdraw() {
    let mut sim = Sim::new();
    sim.deposit("alice", near(10)).unwrap();
    sim.stake("alice", near(9)).unwrap();

    // the trigger settles the epoch
    sim.op_epoch_stake_all();
    sim.unstake("alice", near(5)).unwrap();

    // the balance is free five epochs later
    assert_eq!(sim.account("alice").last_unstake_request_epoch_height, 15);

    sim.epoch += 4;
    sim.core.epoch_cleanup(sim.epoch).unwrap();
    assert_eq!(
        sim.withdraw("alice", near(5)),
        Err(Error::UnstakedBalanceNotAvailable)
    );
    assert_eq!(
        Error::UnstakedBalanceNotAvailable.message(),
        "The unstaked balance is not yet available due to unstaking delay"
    );

    sim.epoch += 1;
    sim.core.epoch_cleanup(sim.epoch).unwrap();
    sim.withdraw("alice", near(5)).unwrap();
}

#[test]
fn test_lst_price() {
    let mut sim = Sim::new();
    assert_eq!(sim.core.ft_price(), Ok(NEAR));
    sim.core.donate(near(5)).unwrap();
    assert_eq!(sim.core.ft_price(), Ok(NEAR + NEAR / 2));
}

#[test]
fn greedy_stake_meets_the_weights_within_the_small_change() {
    // weights 10, 20, 30 and no base stake: each validator ends up with its
    // share by weight of all that is staked, within one unit of small change
    for demand in [near(1), near(7), near(50), near(50) + 12345, near(1234) + 1] {
        let mut sim = Sim::three_validators();
        sim.balance = near(100_000);
        sim.deposit_and_stake("alice", demand).unwrap();
        for _ in 0..10 {
            if !sim.epoch_stake().unwrap() {
                break;
            }
        }
        let total = sim.core.get_total_staked_balance();
        assert_eq!(total, near(10) + demand);
        let mut staked = 0;
        for (name, weight) in [("v1", 10u128), ("v2", 20), ("v3", 30)] {
            let info = sim.core.get_validator(&id(name), sim.epoch).unwrap();
            let share = total * weight / 60;
            assert_eq!(info.target_stake_amount, share);
            assert!(info.staked_amount < share + NEAR);
            assert!(info.staked_amount + NEAR > share);
            staked += info.staked_amount;
        }
        assert!(staked + sim.core.stake_amount_to_settle == total);
        assert!(sim.core.stake_amount_to_settle < NEAR);
    }
}

#[test]
fn executing_validator_refuses_a_second_trigger() {
    let mut sim = Sim::new();
    sim.add_validator("v1", 10);
    sim.deposit_and_stake("alice", near(50)).unwrap();

    // the stake is under way: the guard is taken
    let candidate = sim.core.epoch_stake(sim.epoch, sim.balance).unwrap().unwrap();
    assert!(candidate.validator.executing);
    assert_eq!(candidate.amount, near(60));
    assert_eq!(sim.core.stake_amount_to_settle, 0);
    assert_eq!(
        sim.core.epoch_update_rewards(&id("v1")),
        Err(Error::ValidatorAlreadyExecutingAction)
    );
    assert_eq!(
        sim.core.sync_balance_from_validator(&id("v1")),
        Err(Error::ValidatorAlreadyExecutingAction)
    );
    assert_eq!(
        sim.core.epoch_withdraw(&id("v1"), sim.epoch),
        Err(Error::ValidatorAlreadyExecutingAction)
    );

    // the stake fails: the amount is to settle again and the guard is free
    assert_eq!(
        sim.core.validator_staked_callback(&id("v1"), near(60), false),
        Ok(false)
    );
    assert_eq!(sim.core.stake_amount_to_settle, near(60));
    assert!(!sim.core.validator_pool.get_validator(&id("v1")).unwrap().executing);

    // a stake that goes through keeps the guard until the balances are read back
    let candidate = sim.core.epoch_stake(sim.epoch, sim.balance).unwrap().unwrap();
    assert_eq!(
        sim.core.validator_staked_callback(&id("v1"), candidate.amount, true),
        Ok(true)
    );
    assert!(sim.core.validator_pool.get_validator(&id("v1")).unwrap().executing);
    assert_eq!(
        sim.core.validator_get_account_callback(&id("v1"), Some((near(60), 0))),
        Ok(true)
    );
    assert!(!sim.core.validator_pool.get_validator(&id("v1")).unwrap().executing);
    assert_eq!(sim.core.epoch_update_rewards(&id("v1")), Ok(()));
}

#[test]
fn epoch_stake_keeps_the_reserve() {
    let mut sim = Sim::new();
    sim.add_validator("v1", 10);
    sim.deposit_and_stake("alice", near(50)).unwrap();
    let before = (
        sim.core.stake_amount_to_settle,
        sim.core.epoch_requested_stake_amount,
        sim.core.last_settlement_epoch,
    );
    assert_eq!(
        sim.core.epoch_stake(sim.epoch, near(60)).err(),
        Some(Error::MinReserve)
    );
    // a refused trigger leaves the epoch unsettled
    assert_eq!(
        before,
        (
            sim.core.stake_amount_to_settle,
            sim.core.epoch_requested_stake_amount,
            sim.core.last_settlement_epoch,
        )
    );
    assert!(sim.core.epoch_stake(sim.epoch, near(61)).unwrap().is_some());
}

#[test]
fn sync_leaves_a_large_difference_aside() {
    let mut sim = Sim::new();
    sim.add_validator("v1", 10);
    sim.deposit_and_stake("alice", near(50)).unwrap();
    sim.op_epoch_stake_all();

    let v1 = id("v1");
    sim.core.sync_balance_from_validator(&v1).unwrap();
    assert_eq!(
        sim.core.validator_get_account_callback(&v1, Some((near(60) + 101, 0))),
        Ok(true)
    );
    let kept = sim.core.validator_pool.get_validator(&v1).unwrap();
    assert_eq!(kept.staked_amount, near(60));
    assert!(!kept.executing);

    sim.core.sync_balance_from_validator(&v1).unwrap();
    assert_eq!(
        sim.core.validator_get_account_callback(&v1, Some((near(60) - 100, 100))),
        Ok(true)
    );
    let taken = sim.core.validator_pool.get_validator(&v1).unwrap();
    assert_eq!(taken.staked_amount, near(60) - 100);
    assert_eq!(taken.unstaked_amount, 100);

    // without a guard taken, the callback after a stake is refused
    assert_eq!(
        sim.core.validator_staked_callback(&v1, 1, true),
        Err(Error::ValidatorSyncBalanceNotExpected)
    );
    assert_eq!(
        sim.core.validator_get_account_callback(&id("nobody"), None),
        Err(Error::ValidatorNotExist)
    );
}

#[test]
fn failed_unstake_goes_back_to_the_release_period_before() {
    let mut sim = Sim::three_validators();
    sim.deposit_and_stake("alice", near(110)).unwrap();
    sim.op_epoch_stake_all();
    sim.epoch = 14;
    sim.unstake("alice", near(5)).unwrap();

    sim.validators.get_mut("v1").unwrap().panic = true;
    let candidate = sim.core.epoch_unstake(sim.epoch).unwrap().unwrap();
    assert_eq!(candidate.validator.account_id, "v1");
    assert_eq!(candidate.amount, near(5));
    assert_eq!(candidate.validator.unstake_fired_epoch, 14);
    assert_eq!(sim.core.unstake_amount_to_settle, 0);
    assert_eq!(
        sim.core.validator_unstaked_callback(&id("v1"), near(5), false),
        Ok(false)
    );
    assert_eq!(sim.core.unstake_amount_to_settle, near(5));
    let v1 = sim.core.validator_pool.get_validator(&id("v1")).unwrap();
    assert_eq!(v1.unstake_fired_epoch, 0);
    assert!(!v1.executing);
    assert!(!v1.pending_release(sim.epoch));
}
