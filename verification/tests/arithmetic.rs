//! The wide multiplication and division, and the small helpers.

use lst::errors::Error;
use lst::math::mul_div_rem;
use lst::utils::{
    abs_diff_eq, bps_mul, min3, RewardFeeFraction, CONTRACT_MIN_RESERVE_BALANCE,
    FULL_BASIS_POINTS, INIT_STAKING_AMOUNT, INIT_STORAGE_OCCUPY, MAX_BENEFICIARIES,
    NUM_EPOCHS_TO_UNLOCK, ONE_NEAR,
};

#[test]
fn mul_div_rem_gives_quotient_and_remainder() {
    assert_eq!(mul_div_rem(6, 7, 4), Some((10, 2)));
    assert_eq!(mul_div_rem(0, 7, 4), Some((0, 0)));
    assert_eq!(mul_div_rem(7, 0, 4), Some((0, 0)));
    assert_eq!(mul_div_rem(1, 1, 1), Some((1, 0)));
    assert_eq!(mul_div_rem(10, 10, 3), Some((33, 1)));
    assert_eq!(mul_div_rem(5, 3, 16), Some((0, 15)));
}

#[test]
fn mul_div_rem_keeps_the_high_half_of_the_product() {
    let max = u128::MAX;
    // the product is beyond 128 bits, the quotient is not
    assert_eq!(mul_div_rem(max, max, max), Some((max, 0)));
    assert_eq!(mul_div_rem(max, 2, 2), Some((max, 0)));
    assert_eq!(mul_div_rem(max, 3, 4), Some((max / 4 * 3 + 2, 1)));
    assert_eq!(mul_div_rem(max - 1, max, max), Some((max - 1, 0)));
    assert_eq!(mul_div_rem(max, max - 1, max), Some((max - 1, 0)));
    assert_eq!(
        mul_div_rem(1 << 127, 1 << 127, 1 << 126),
        None
    );
    assert_eq!(mul_div_rem(1 << 127, 1 << 100, 1 << 100), Some((1 << 127, 0)));
    // 70 NEAR of shares, a reward part of 0.2 NEAR, 79 NEAR staked
    let (quotient, remainder) = mul_div_rem(ONE_NEAR * 70, ONE_NEAR / 5, ONE_NEAR * 79).unwrap();
    assert_eq!(quotient, 177215189873417721518987);
    assert_eq!(remainder, (70 * (ONE_NEAR / 5) - quotient * 79) * ONE_NEAR);
    assert!(remainder < ONE_NEAR * 79);
}

#[test]
fn mul_div_rem_refuses_what_does_not_fit() {
    assert_eq!(mul_div_rem(1, 1, 0), None);
    assert_eq!(mul_div_rem(0, 0, 0), None);
    assert_eq!(mul_div_rem(u128::MAX, 2, 1), None);
    assert_eq!(mul_div_rem(u128::MAX, u128::MAX, u128::MAX - 1), None);
    assert_eq!(mul_div_rem(1 << 64, 1 << 64, 1), None);
    assert_eq!(mul_div_rem(1 << 64, 1 << 63, 1), Some((1 << 127, 0)));
}

#[test]
fn mul_div_rem_agrees_with_plain_arithmetic() {
    let samples: [u128; 9] = [0, 1, 2, 3, 7, 10, 1 << 20, (1 << 40) + 12345, (1 << 63) - 1];
    for a in samples {
        for b in samples {
            for c in samples {
                let expected = if c == 0 { None } else { Some((a * b / c, a * b % c)) };
                assert_eq!(mul_div_rem(a, b, c), expected);
            }
        }
    }
}

#[test]
fn min3_is_the_smallest() {
    assert_eq!(min3(1, 2, 3), 1);
    assert_eq!(min3(2, 1, 3), 1);
    assert_eq!(min3(3, 2, 1), 1);
    assert_eq!(min3(5, 5, 5), 5);
    assert_eq!(min3(u128::MAX, 0, u128::MAX), 0);
}

#[test]
fn abs_diff_eq_is_within_epsilon() {
    assert!(abs_diff_eq(100, 100, 0));
    assert!(abs_diff_eq(100, 200, 100));
    assert!(abs_diff_eq(200, 100, 100));
    assert!(!abs_diff_eq(100, 201, 100));
    assert!(!abs_diff_eq(201, 100, 100));
    assert!(abs_diff_eq(u128::MAX, u128::MAX - 5, 5));
    assert!(!abs_diff_eq(u128::MAX, 0, u128::MAX - 1));
    assert!(abs_diff_eq(u128::MAX, 0, u128::MAX));
}

#[test]
fn bps_mul_takes_basis_points() {
    assert_eq!(bps_mul(10_000, 1), 1);
    assert_eq!(bps_mul(9_999, 1), 0);
    assert_eq!(bps_mul(2 * ONE_NEAR, 1000), ONE_NEAR / 5);
    assert_eq!(bps_mul(12345, FULL_BASIS_POINTS), 12345);
    assert_eq!(bps_mul(u128::MAX, 10_000), u128::MAX);
    assert_eq!(bps_mul(u128::MAX, 5_000), u128::MAX / 2);
    assert_eq!(bps_mul(77, 0), 0);
}

#[test]
fn reward_fee_fraction_is_checked_and_multiplies() {
    let fee = RewardFeeFraction { numerator: 1, denominator: 3 };
    assert_eq!(fee.assert_valid(), Ok(()));
    assert_eq!(fee.multiply(10), 3);
    assert_eq!(fee.multiply(u128::MAX), u128::MAX / 3);
    assert_eq!(RewardFeeFraction { numerator: 0, denominator: 1 }.multiply(99), 0);
    assert_eq!(RewardFeeFraction { numerator: 5, denominator: 5 }.assert_valid(), Ok(()));
    assert_eq!(
        RewardFeeFraction { numerator: 1, denominator: 0 }.assert_valid(),
        Err(Error::ZeroDenominator)
    );
    assert_eq!(
        RewardFeeFraction { numerator: 4, denominator: 3 }.assert_valid(),
        Err(Error::FractionAboveOne)
    );
    assert_eq!(Error::ZeroDenominator.message(), "Denominator must be a positive number");
    assert_eq!(Error::FractionAboveOne.message(), "The reward fee must be less or equal to 1");
}

#[test]
fn constants_are_as_stated() {
    assert_eq!(ONE_NEAR, 10u128.pow(24));
    assert_eq!(INIT_STAKING_AMOUNT, 10 * ONE_NEAR);
    assert_eq!(INIT_STORAGE_OCCUPY, 10 * ONE_NEAR);
    assert_eq!(CONTRACT_MIN_RESERVE_BALANCE, ONE_NEAR);
    assert_eq!(NUM_EPOCHS_TO_UNLOCK, 4);
    assert_eq!(FULL_BASIS_POINTS, 10_000);
    assert_eq!(MAX_BENEFICIARIES, 10);
    assert_eq!(lst::allocation::STAKE_SMALL_CHANGE_AMOUNT, ONE_NEAR);
    assert_eq!(lst::validator_pool::MAX_UPDATE_WEIGHTS_COUNT, 300);
    assert_eq!(lst::epoch_actions::MIN_AMOUNT_TO_PERFORM_STAKE, ONE_NEAR);
    assert_eq!(lst::epoch_actions::MAX_SYNC_BALANCE_DIFF, 100);
}
