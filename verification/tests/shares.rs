//! The price of a share, the four operations of an account, the beneficiaries
//! and their shares of the rewards.

use lst::account::Account;
use lst::contract::{Beneficiary, Contract};
use lst::errors::Error;
use lst::internal::reward_shares;
use lst::validator::Validator;

const NEAR: u128 = 1_000_000_000_000_000_000_000_000;

fn id(name: &str) -> String {
    name.to_string()
}

fn pool(total_shares: u128, total_staked: u128) -> Contract {
    let mut c = Contract::new(20 * NEAR).unwrap();
    c.total_share_amount = total_shares;
    c.total_staked_near_amount = total_staked;
    c.epoch_requested_stake_amount = 0;
    c
}

fn rich(unstaked: u128) -> Account {
    Account { unstaked, last_unstake_request_epoch_height: 0 }
}

fn beneficiary(name: &str, bps: u32) -> Beneficiary {
    Beneficiary { account_id: id(name), bps }
}

#[test]
fn a_new_pool_stakes_for_itself() {
    assert_eq!(Contract::new(20 * NEAR - 1).err(), Some(Error::NoEnoughInitDeposit));
    assert_eq!(Contract::new(0).err(), Some(Error::NoEnoughInitDeposit));
    let c = Contract::new(20 * NEAR).unwrap();
    assert_eq!(c.total_share_amount, 10 * NEAR);
    assert_eq!(c.total_staked_near_amount, 10 * NEAR);
    assert_eq!(c.epoch_requested_stake_amount, 10 * NEAR);
    assert_eq!(c.epoch_requested_unstake_amount, 0);
    assert_eq!(c.stake_amount_to_settle, 0);
    assert_eq!(c.unstake_amount_to_settle, 0);
    assert_eq!(c.last_settlement_epoch, 0);
    assert_eq!(c.validator_pool.count(), 0);
    assert!(c.get_beneficiaries().is_empty());
    let summary = c.get_summary().unwrap();
    assert_eq!(summary.ft_price, NEAR);
    assert_eq!(summary.validators_num, 0);
    assert_eq!(summary.total_share_amount, 10 * NEAR);
    assert_eq!(summary.epoch_requested_stake_amount, 10 * NEAR);
    assert_eq!(c.get_total_weight(), 0);
}

#[test]
fn shares_are_minted_down_and_burnt_up() {
    // 3 shares for 10 staked
    let c = pool(3, 10);
    assert_eq!(c.num_shares_from_staked_amount_rounded_down(10), Ok(3));
    assert_eq!(c.num_shares_from_staked_amount_rounded_down(9), Ok(2));
    assert_eq!(c.num_shares_from_staked_amount_rounded_up(9), Ok(3));
    assert_eq!(c.num_shares_from_staked_amount_rounded_down(1), Ok(0));
    assert_eq!(c.num_shares_from_staked_amount_rounded_up(1), Ok(1));
    assert_eq!(c.num_shares_from_staked_amount_rounded_up(0), Ok(0));
    assert_eq!(c.num_shares_from_staked_amount_rounded_up(20), Ok(6));
    assert_eq!(c.staked_amount_from_num_shares_rounded_down(1), Ok(3));
    assert_eq!(c.staked_amount_from_num_shares_rounded_down(2), Ok(6));
    assert_eq!(c.staked_amount_from_num_shares_rounded_down(3), Ok(10));
    assert_eq!(c.ft_price(), Ok(NEAR * 10 / 3));

    let empty = pool(0, 0);
    assert_eq!(
        empty.num_shares_from_staked_amount_rounded_down(1),
        Err(Error::NonPositiveTotalStakedBalance)
    );
    assert_eq!(
        empty.num_shares_from_staked_amount_rounded_up(1),
        Err(Error::NonPositiveTotalStakedBalance)
    );
    assert_eq!(
        empty.staked_amount_from_num_shares_rounded_down(1),
        Err(Error::NonPositiveTotalStakeShares)
    );
    assert_eq!(empty.ft_price(), Err(Error::NonPositiveTotalStakeShares));
    assert_eq!(empty.get_summary().err(), Some(Error::NonPositiveTotalStakeShares));

    // with amounts near the limit
    let big = pool(u128::MAX, u128::MAX);
    assert_eq!(big.num_shares_from_staked_amount_rounded_down(u128::MAX), Ok(u128::MAX));
    assert_eq!(big.num_shares_from_staked_amount_rounded_up(u128::MAX - 1), Ok(u128::MAX - 1));
    let cheap = pool(u128::MAX, 2);
    assert_eq!(cheap.num_shares_from_staked_amount_rounded_down(3), Err(Error::ArithmeticOverflow));
    assert_eq!(cheap.num_shares_from_staked_amount_rounded_up(3), Err(Error::ArithmeticOverflow));
    assert_eq!(cheap.num_shares_from_staked_amount_rounded_down(2), Ok(u128::MAX));
    assert_eq!(pool(u128::MAX, 3).num_shares_from_staked_amount_rounded_up(3), Ok(u128::MAX));
    let odd = pool(u128::MAX - 1, u128::MAX);
    assert_eq!(odd.num_shares_from_staked_amount_rounded_down(u128::MAX), Ok(u128::MAX - 1));
    let dear = pool(2, u128::MAX);
    assert_eq!(dear.staked_amount_from_num_shares_rounded_down(3), Err(Error::ArithmeticOverflow));
    assert_eq!(dear.staked_amount_from_num_shares_rounded_down(2), Ok(u128::MAX));
}

#[test]
fn mint_and_burn_keep_the_count() {
    let mut c = pool(10, 10);
    assert_eq!(c.mint_lst(0), Err(Error::NonPositiveShares));
    assert_eq!(c.mint_lst(5), Ok(()));
    assert_eq!(c.total_share_amount, 15);
    assert_eq!(c.mint_lst(u128::MAX - 14), Err(Error::ArithmeticOverflow));
    assert_eq!(c.mint_lst(u128::MAX - 15), Ok(()));
    assert_eq!(c.total_share_amount, u128::MAX);

    let mut c = pool(10, 10);
    assert_eq!(c.burn_lst(7, 0), Err(Error::NonPositiveShares));
    assert_eq!(c.burn_lst(7, 8), Err(Error::NoEnoughShares));
    assert_eq!(c.burn_lst(70, 11), Err(Error::ArithmeticOverflow));
    assert_eq!(c.total_share_amount, 10);
    assert_eq!(c.burn_lst(7, 7), Ok(()));
    assert_eq!(c.total_share_amount, 3);
    assert_eq!(Error::NonPositiveShares.message(), "Share number should be positive");
}

#[test]
fn donate_raises_the_price() {
    let mut c = pool(10, 10);
    assert_eq!(c.donate(5), Ok(()));
    assert_eq!(c.total_staked_near_amount, 15);
    assert_eq!(c.total_share_amount, 10);
    assert_eq!(c.epoch_requested_stake_amount, 5);
    assert_eq!(c.donate(u128::MAX - 14), Err(Error::ArithmeticOverflow));
    assert_eq!(c.total_staked_near_amount, 15);
    c.total_staked_near_amount = 0;
    c.epoch_requested_stake_amount = u128::MAX;
    assert_eq!(c.donate(1), Err(Error::ArithmeticOverflow));
    assert_eq!(c.total_staked_near_amount, 0);
}

#[test]
fn deposit_and_withdraw() {
    let c = pool(10, 10);
    let mut account = Account::default();
    assert_eq!(account, rich(0));
    assert_eq!(c.internal_deposit(&mut account, 0), Err(Error::NonPositiveDepositAmount));
    assert_eq!(c.internal_deposit(&mut account, 7), Ok(()));
    assert_eq!(account.unstaked, 7);
    assert_eq!(c.internal_deposit(&mut account, u128::MAX - 6), Err(Error::ArithmeticOverflow));
    assert_eq!(account.unstaked, 7);
    assert_eq!(c.deposit(&mut account, 5, 6), Err(Error::ArithmeticOverflow));
    assert_eq!(c.deposit(&mut account, 5, 5), Err(Error::NonPositiveDepositAmount));
    assert_eq!(c.deposit(&mut account, 5, 2), Ok(()));
    assert_eq!(account.unstaked, 10);

    let reserve = NEAR;
    assert_eq!(
        c.assert_can_withdraw(&account, 0, reserve + 100),
        Err(Error::NonPositiveWithdrawalAmount)
    );
    assert_eq!(
        c.assert_can_withdraw(&account, 11, reserve + 100),
        Err(Error::NoEnoughUnstakedBalanceToWithdraw)
    );
    assert_eq!(
        c.can_account_withdraw(&account, 10, reserve + 9),
        Err(Error::NoEnoughContractBalance)
    );
    assert_eq!(c.assert_can_withdraw(&account, 10, 5), Err(Error::NoEnoughContractBalance));
    assert_eq!(c.assert_can_withdraw(&account, 10, reserve + 10), Ok(()));
    let mut waiting = account;
    waiting.last_unstake_request_epoch_height = 1;
    assert_eq!(
        c.assert_can_withdraw(&waiting, 10, reserve + 10),
        Err(Error::UnstakedBalanceNotAvailable)
    );
    assert_eq!(
        c.internal_withdraw(&mut waiting, 10, reserve + 10),
        Err(Error::UnstakedBalanceNotAvailable)
    );
    assert_eq!(waiting.unstaked, 10);
    assert!(!c.is_account_unstaked_balance_available(&waiting, 0));
    assert!(c.is_account_unstaked_balance_available(&waiting, 1));

    assert_eq!(c.internal_withdraw(&mut account, 4, reserve + 10), Ok(()));
    assert_eq!(account.unstaked, 6);
    assert_eq!(c.withdraw_all(&mut account, reserve + 5), Err(Error::NoEnoughContractBalance));
    assert_eq!(c.withdraw_all(&mut account, reserve + 6), Ok(6));
    assert_eq!(account.unstaked, 0);
    assert_eq!(c.withdraw_all(&mut account, reserve + 6), Err(Error::NonPositiveWithdrawalAmount));
}

#[test]
fn test_storage_unregister() {
    let c = pool(10, 10);
    // can unregister immediately
    assert_eq!(c.storage_unregister(&rich(0), None), Ok(()));
    assert_eq!(c.storage_unregister(&rich(0), Some(false)), Ok(()));
    assert_eq!(c.storage_unregister(&rich(0), Some(true)), Err(Error::ForceUnregister));
    assert_eq!(c.storage_unregister(&rich(1), Some(true)), Err(Error::ForceUnregister));
    assert_eq!(c.storage_unregister(&rich(1), None), Err(Error::UnregisterPositiveUnstaked));
    assert_eq!(Error::ForceUnregister.message(), "Force unregister is not allowed");
    assert_eq!(
        Error::UnregisterPositiveUnstaked.message(),
        "Can't unregister the account with the positive unstaked balance"
    );
    // once all is staked, nothing unstaked is in the way
    let mut c = pool(10, 10);
    let mut bob = rich(0);
    c.internal_deposit(&mut bob, 10).unwrap();
    assert_eq!(c.storage_unregister(&bob, None), Err(Error::UnregisterPositiveUnstaked));
    c.stake(&mut bob, 10).unwrap();
    assert_eq!(c.storage_unregister(&bob, None), Ok(()));
    assert_eq!(c.add_validators(&vec![id("a")], &vec![1]), Ok(()));
    assert_eq!(c.add_validators(&vec![id("a")], &vec![]), Err(Error::BadValidatorList));
}

#[test]
fn stake_is_refused_with_its_reason() {
    let mut c = pool(3, 10);
    let mut account = rich(100);
    assert_eq!(c.internal_stake(&mut account, 0), Err(Error::NonPositiveStakingAmount));
    assert_eq!(c.internal_stake(&mut account, 3), Err(Error::NonPositiveCalculatedStakingShare));
    assert_eq!(c.internal_stake(&mut account, 101), Err(Error::NoEnoughUnstakedBalance));
    assert_eq!(pool(0, 0).internal_stake(&mut account, 5), Err(Error::NonPositiveTotalStakedBalance));
    assert_eq!(
        pool(u128::MAX, 2).internal_stake(&mut rich(9), 3),
        Err(Error::ArithmeticOverflow)
    );
    assert_eq!(
        pool(u128::MAX, u128::MAX).internal_stake(&mut rich(9), 3),
        Err(Error::ArithmeticOverflow)
    );
    assert_eq!(pool(9, u128::MAX).stake_all(&mut rich(u128::MAX)), Err(Error::ArithmeticOverflow));
    let mut full = pool(10, 10);
    full.epoch_requested_stake_amount = u128::MAX - 4;
    assert_eq!(full.internal_stake(&mut rich(9), 5), Err(Error::ArithmeticOverflow));
    assert_eq!(full.total_staked_near_amount, 10);
    assert_eq!(account, rich(100));
    assert_eq!((c.total_share_amount, c.total_staked_near_amount), (3, 10));

    assert_eq!(c.internal_stake(&mut account, 9), Ok(2));
    assert_eq!(account.unstaked, 91);
    assert_eq!((c.total_share_amount, c.total_staked_near_amount), (5, 19));
    assert_eq!(c.epoch_requested_stake_amount, 9);

    let mut late = rich(0);
    assert_eq!(c.deposit_and_stake(&mut late, 2, 0), Err(Error::NonPositiveCalculatedStakingShare));
    assert_eq!(late, rich(0));
    assert_eq!(c.deposit_and_stake(&mut late, 30, 11), Ok(5));
    assert_eq!(late, rich(0));
    assert_eq!((c.total_share_amount, c.total_staked_near_amount), (10, 38));
}

#[test]
fn unstake_is_refused_with_its_reason() {
    let mut c = pool(10, 30);
    let mut account = rich(0);
    assert_eq!(c.internal_unstake(&mut account, 5, 0, 7), Err(Error::NonPositiveUnstakingAmount));
    assert_eq!(
        pool(0, 0).internal_unstake(&mut account, 5, 1, 7),
        Err(Error::ContractNoStakedBalance)
    );
    assert_eq!(
        pool(0, 30).internal_unstake(&mut account, 5, 1, 7),
        Err(Error::NonPositiveCalculatedUnstakingShare)
    );
    // 10 units are worth 3.33 shares: 4 are burnt
    assert_eq!(c.internal_unstake(&mut account, 3, 10, 7), Err(Error::NoEnoughShares));
    assert_eq!(
        pool(u128::MAX, 2).internal_unstake(&mut account, 5, 3, 7),
        Err(Error::ArithmeticOverflow)
    );
    assert_eq!(
        pool(40, 30).internal_unstake(&mut account, 50, 31, 7),
        Err(Error::ArithmeticOverflow)
    );
    assert_eq!(
        c.internal_unstake(&mut rich(u128::MAX), 5, 10, 7),
        Err(Error::ArithmeticOverflow)
    );
    assert_eq!(
        c.internal_unstake(&mut account, 5, 10, u64::MAX - 3),
        Err(Error::ArithmeticOverflow)
    );
    let mut full = pool(10, 30);
    full.epoch_requested_unstake_amount = u128::MAX;
    assert_eq!(full.internal_unstake(&mut account, 5, 10, 7), Err(Error::ArithmeticOverflow));
    assert_eq!(account, rich(0));
    assert_eq!((c.total_share_amount, c.total_staked_near_amount), (10, 30));

    assert_eq!(c.internal_unstake(&mut account, 4, 10, 7), Ok(4));
    assert_eq!(account.unstaked, 10);
    // nothing is staked on validators: four epochs
    assert_eq!(account.last_unstake_request_epoch_height, 11);
    assert_eq!((c.total_share_amount, c.total_staked_near_amount), (6, 20));
    assert_eq!(c.epoch_requested_unstake_amount, 10);

    // unstake after the settlement of the epoch: one epoch more
    c.last_settlement_epoch = 7;
    assert_eq!(c.internal_unstake(&mut account, 6, 1, 7), Ok(1));
    assert_eq!(account.last_unstake_request_epoch_height, 12);
    c.last_settlement_epoch = 6;
    c.last_settlement_initiated_epoch = 7;
    assert_eq!(c.internal_unstake(&mut account, 6, 1, 7), Ok(1));
    assert_eq!(account.last_unstake_request_epoch_height, 12);

    // too little is free on the validators: twice as long
    let mut held = Validator::new(id("v"), 1);
    held.staked_amount = 18;
    held.unstake_fired_epoch = 20;
    c.validator_pool.save_validator(&held);
    assert_eq!(c.internal_unstake(&mut account, 6, 1, 21), Ok(1));
    assert_eq!(account.last_unstake_request_epoch_height, 29);
    assert_eq!(c.internal_unstake(&mut account, 6, 1, 19), Ok(1));
    assert_eq!(account.last_unstake_request_epoch_height, 23);
}

#[test]
fn price_never_falls_below_one() {
    // no sequence of stakes and unstakes brings the shares above the staked amount
    let mut c = pool(7, 10);
    let mut account = rich(1_000_000);
    let mut shares = 0u128;
    let steps: [(bool, u128); 12] = [
        (true, 3),
        (true, 1000),
        (false, 7),
        (true, 13),
        (false, 500),
        (false, 1),
        (true, 2),
        (false, 300),
        (true, 99_999),
        (false, 70_001),
        (false, 29_998),
        (false, 222),
    ];
    for (stake, amount) in steps {
        if stake {
            if let Ok(minted) = c.internal_stake(&mut account, amount) {
                shares += minted;
            }
        } else if let Ok(burnt) = c.internal_unstake(&mut account, shares, amount, 1) {
            shares -= burnt;
        }
        assert!(c.total_share_amount <= c.total_staked_near_amount);
        assert_eq!(c.total_share_amount, 7 + shares);
    }
}

#[test]
fn a_round_trip_never_pays_more_than_was_staked() {
    for (total_shares, total_staked) in [(7u128, 10u128), (10, 10), (1, 1000), (999, 1000), (3, 3_000_000_007)] {
        for amount in [1u128, 2, 3, 10, 999, 1000, 1001, 123_456_789, 3_000_000_007] {
            let mut c = pool(total_shares, total_staked);
            let mut account = rich(amount);
            let minted = match c.internal_stake(&mut account, amount) {
                Ok(m) => m,
                Err(e) => {
                    assert_eq!(e, Error::NonPositiveCalculatedStakingShare);
                    continue;
                },
            };
            let worth = c.get_account_staked_balance(minted).unwrap();
            assert!(worth <= amount);
            let (back, burnt) = c.unstake_all(&mut account, minted, 1).unwrap();
            assert_eq!(back, worth);
            assert!(burnt <= minted);
            assert_eq!(account.unstaked, back);
            assert!(c.total_staked_near_amount >= total_staked);
            assert!(c.total_share_amount <= total_shares + minted);
        }
    }
}

#[test]
fn account_views() {
    let c = pool(3, 10);
    let account = Account { unstaked: 4, last_unstake_request_epoch_height: 9 };
    let details = c.get_account_details(id("alice"), &account, 2, 8).unwrap();
    assert_eq!(details.account_id, "alice");
    assert_eq!(details.unstaked_balance, 4);
    assert_eq!(details.staked_balance, 6);
    assert_eq!(details.last_unstake_request_epoch_height, 9);
    assert!(!details.can_withdraw);
    let shown = c.get_account(id("alice"), &account, 2, 9).unwrap();
    assert_eq!(shown.account_id, "alice");
    assert_eq!(shown.unstaked_balance, 4);
    assert_eq!(shown.staked_balance, 6);
    assert!(shown.can_withdraw);
    assert_eq!(c.get_account_total_balance(&account, 3), Ok(14));
    assert_eq!(c.get_account_unstaked_balance(&account), 4);
    assert_eq!(
        pool(0, 10).get_account_total_balance(&account, 3),
        Err(Error::NonPositiveTotalStakeShares)
    );
    assert_eq!(
        pool(1, u128::MAX).get_account_total_balance(&account, 1),
        Err(Error::ArithmeticOverflow)
    );
    assert_eq!(
        pool(0, 10).get_account(id("alice"), &account, 2, 9).err(),
        Some(Error::NonPositiveTotalStakeShares)
    );
    assert_eq!(
        pool(0, 10).get_account_details(id("alice"), &account, 2, 9).err(),
        Some(Error::NonPositiveTotalStakeShares)
    );
}

#[test]
fn beneficiaries_are_kept_within_their_limits() {
    let mut c = pool(10, 10);
    assert_eq!(c.set_beneficiary(&id("a"), 700), Ok(()));
    assert_eq!(c.set_beneficiary(&id("b"), 300), Ok(()));
    let fee = c.get_reward_fee_fraction();
    assert_eq!((fee.numerator, fee.denominator), (1000, 10_000));
    assert_eq!(c.set_beneficiary(&id("c"), 9_001), Err(Error::BpsSumOne));
    assert_eq!(c.set_beneficiary(&id("c"), u32::MAX), Err(Error::BpsSumOne));
    assert_eq!(c.set_beneficiary(&id("c"), 9_000), Ok(()));
    assert_eq!(c.set_beneficiary(&id("a"), 701), Err(Error::BpsSumOne));
    assert_eq!(c.set_beneficiary(&id("a"), 100), Ok(()));
    assert_eq!(c.set_beneficiary(&id("b"), 900), Ok(()));
    let list: Vec<(String, u32)> =
        c.get_beneficiaries().iter().map(|b| (b.account_id.clone(), b.bps)).collect();
    assert_eq!(list, vec![(id("a"), 100), (id("b"), 900), (id("c"), 9_000)]);

    c.remove_beneficiary(&id("a"));
    c.remove_beneficiary(&id("nobody"));
    let list: Vec<(String, u32)> =
        c.get_beneficiaries().iter().map(|b| (b.account_id.clone(), b.bps)).collect();
    assert_eq!(list, vec![(id("c"), 9_000), (id("b"), 900)]);
    assert_eq!(c.get_reward_fee_fraction().numerator, 9_900);

    let mut c = pool(10, 10);
    for k in 0..10 {
        assert_eq!(c.set_beneficiary(&format!("b{}", k), 0), Ok(()));
    }
    assert_eq!(c.set_beneficiary(&id("one-more"), 1), Err(Error::TooManyBeneficiaries));
    assert_eq!(c.set_beneficiary(&id("b3"), 10_000), Ok(()));
    assert_eq!(c.get_beneficiaries().len(), 10);
    assert_eq!(Error::TooManyBeneficiaries.message(), "Too many beneficiaries");
    assert_eq!(Error::BpsSumOne.message(), "bps sum should be less than 1");
}

#[test]
fn reward_shares_sum_up_to_the_whole() {
    // 700 and 300 basis points of a reward of 2 NEAR: a tenth of it in all
    let list = vec![beneficiary("a", 700), beneficiary("b", 300)];
    let c = pool(70 * NEAR, 79 * NEAR);
    let whole = c.num_shares_from_staked_amount_rounded_down(2 * NEAR / 10).unwrap();
    assert_eq!(whole, 177215189873417721518987);
    let shares = reward_shares(70 * NEAR, 79 * NEAR, &list, 2 * NEAR).unwrap();
    assert_eq!(shares, vec![124050632911392405063291, 53164556962025316455696]);
    // the first gets what its own part of 0.14 NEAR is worth
    assert_eq!(
        shares[0],
        c.num_shares_from_staked_amount_rounded_down(2 * NEAR * 700 / 10_000).unwrap()
    );
    assert_eq!(shares[0] + shares[1], whole);

    // the last one gets what the others leave
    let three = vec![beneficiary("a", 1), beneficiary("b", 1), beneficiary("c", 1)];
    assert_eq!(reward_shares(10_000, 10_000, &three, 10_000), Ok(vec![1, 1, 1]));
    assert_eq!(reward_shares(10_000, 10_000, &three, 16_667), Ok(vec![1, 1, 3]));
    let four = vec![
        beneficiary("a", 3333),
        beneficiary("b", 3333),
        beneficiary("c", 3333),
        beneficiary("d", 1),
    ];
    assert_eq!(reward_shares(100, 100, &four, 100), Ok(vec![33, 33, 33, 1]));
    assert_eq!(reward_shares(100, 200, &four, 101), Ok(vec![16, 16, 16, 2]));
    assert_eq!(reward_shares(5, 5, &Vec::new(), 5), Ok(Vec::new()));
}

#[test]
fn reward_shares_are_refused_with_their_reason() {
    let list = vec![beneficiary("a", 700), beneficiary("b", 300)];
    assert_eq!(reward_shares(70, 0, &list, 20), Err(Error::NonPositiveTotalStakedBalance));
    assert_eq!(reward_shares(70, 0, &Vec::new(), 20), Err(Error::NonPositiveTotalStakedBalance));
    // the tenth of the reward is worth less than one share
    assert_eq!(reward_shares(70, 79, &list, 9), Err(Error::NonPositiveShares));
    assert_eq!(reward_shares(70, 79, &list, 20), Err(Error::NonPositiveShares));
    // two shares: the first beneficiary gets one, the second one
    assert_eq!(reward_shares(70, 70, &list, 20), Ok(vec![1, 1]));
    // one share: the first beneficiary would get none
    assert_eq!(reward_shares(70, 70, &list, 10), Err(Error::NonPositiveShares));
    let idle = vec![beneficiary("a", 0), beneficiary("b", 0)];
    assert_eq!(reward_shares(70, 70, &idle, 1000), Err(Error::NonPositiveShares));
    let unpaid = vec![beneficiary("a", 0), beneficiary("b", 1000)];
    assert_eq!(reward_shares(70, 70, &unpaid, 1000), Err(Error::NonPositiveShares));
    let all = vec![beneficiary("a", 10_000)];
    assert_eq!(reward_shares(u128::MAX, 1, &all, 2), Err(Error::ArithmeticOverflow));
    assert_eq!(reward_shares(u128::MAX, 2, &all, 2), Err(Error::ArithmeticOverflow));
    assert_eq!(reward_shares(u128::MAX - 2, u128::MAX - 2, &all, 2), Ok(vec![2]));
    assert_eq!(reward_shares(u128::MAX - 2, u128::MAX - 2, &all, 3), Err(Error::ArithmeticOverflow));

    let mut c = pool(70, 70);
    c.set_beneficiary(&id("a"), 700).unwrap();
    c.set_beneficiary(&id("b"), 300).unwrap();
    assert_eq!(c.internal_distribute_staking_rewards(10), Err(Error::NonPositiveShares));
    assert_eq!(c.total_share_amount, 70);
    assert_eq!(c.internal_distribute_staking_rewards(50), Ok(vec![3, 2]));
    assert_eq!(c.total_share_amount, 75);
}

#[test]
fn rewards_of_a_validator_are_booked_or_refused_as_a_whole() {
    let mut c = pool(70, 70);
    c.set_beneficiary(&id("a"), 700).unwrap();
    c.set_beneficiary(&id("b"), 300).unwrap();
    c.is_whitelisted_callback(&id("v"), 1, true).unwrap();
    let mut v = c.validator_pool.get_validator(&id("v")).unwrap();
    v.staked_amount = 60;
    v.unstaked_amount = 10;
    c.validator_pool.save_validator(&v);
    c.update_base_stake_amounts(&vec![id("v")], &vec![35]).unwrap();

    c.epoch_update_rewards(&id("v")).unwrap();
    // less than is booked
    assert_eq!(c.validator_get_balance_callback(&id("v"), Some(69)), Err(Error::ArithmeticOverflow));
    // a reward too small to share
    assert_eq!(c.validator_get_balance_callback(&id("v"), Some(80)), Err(Error::NonPositiveShares));
    let kept = c.validator_pool.get_validator(&id("v")).unwrap();
    assert!(kept.executing);
    assert_eq!((kept.staked_amount, kept.base_stake_amount), (60, 35));
    assert_eq!((c.total_share_amount, c.total_staked_near_amount), (70, 70));
    assert_eq!(c.validator_pool.total_base_stake_amount, 35);
    assert_eq!(
        c.validator_get_balance_callback(&id("w"), Some(80)),
        Err(Error::ValidatorNotExist)
    );
    assert_eq!(c.epoch_update_rewards(&id("w")), Err(Error::ValidatorNotExist));

    // the balance could not be read: only the guard is given back
    assert_eq!(c.validator_get_balance_callback(&id("v"), None), Ok(Vec::new()));
    assert!(!c.validator_pool.get_validator(&id("v")).unwrap().executing);

    // a reward of 70: 7 in basis points, worth 3 shares at 70 for 140
    c.epoch_update_rewards(&id("v")).unwrap();
    assert_eq!(c.validator_get_balance_callback(&id("v"), Some(140)), Ok(vec![2, 1]));
    let booked = c.validator_pool.get_validator(&id("v")).unwrap();
    assert!(!booked.executing);
    assert_eq!((booked.staked_amount, booked.unstaked_amount), (130, 10));
    assert_eq!(booked.base_stake_amount, 70);
    assert_eq!(c.validator_pool.total_base_stake_amount, 70);
    assert_eq!((c.total_share_amount, c.total_staked_near_amount), (73, 140));

    // no reward: the balance is booked as it is
    c.epoch_update_rewards(&id("v")).unwrap();
    assert_eq!(c.validator_get_balance_callback(&id("v"), Some(140)), Ok(Vec::new()));
    assert_eq!((c.total_share_amount, c.total_staked_near_amount), (73, 140));
}
