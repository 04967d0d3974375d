//! The reasons for which the pool refuses an operation.

use vstd::prelude::*;

verus! {

/// Why an operation was refused. A refused operation leaves the state as it was.
#[derive(Clone, Copy, Debug, PartialEq, Eq, Structural)]
pub enum Error {
    NoEnoughInitDeposit,
    ForceUnregister,
    UnregisterPositiveUnstaked,
    BpsSumOne,
    TooManyBeneficiaries,
    NonPositiveStakingAmount,
    NonPositiveCalculatedStakingShare,
    NoEnoughUnstakedBalance,
    NoEnoughWithdrawBalance,
    NonPositiveUnstakingAmount,
    NonPositiveCalculatedUnstakingShare,
    NonPositiveTotalStakedBalance,
    NonPositiveTotalStakeShares,
    ContractNoStakedBalance,
    NonZeroWeight,
    NonZeroBaseStakeAmount,
    BadUnstakedAmount,
    NonZeroStakedAmount,
    Draining,
    NotInDraining,
    NonPositiveDepositAmount,
    NonPositiveWithdrawalAmount,
    NoEnoughUnstakedBalanceToWithdraw,
    UnstakedBalanceNotAvailable,
    NoEnoughContractBalance,
    MinReserve,
    ValidatorNotExist,
    ValidatorAlreadyExist,
    ValidatorInUse,
    BadValidatorList,
    TooManyWeightUpdates,
    ValidatorNotWhitelisted,
    ValidatorUnstakeAmount,
    ValidatorUnstakeWhenLocked,
    ValidatorWithdrawWhenLocked,
    ValidatorAlreadyExecutingAction,
    ValidatorSyncBalanceNotExpected,
    NonPositiveShares,
    NoEnoughShares,
    ZeroDenominator,
    FractionAboveOne,
    /// A sum, difference or quotient does not fit the integer that holds it.
    ArithmeticOverflow,
}

impl Error {
    /// The text that goes with the error.
    pub fn message(&self) -> (text: &'static str)
        ensures
            text@ == self.message_text(),
    {
        match self {
            Error::NoEnoughInitDeposit => "The account doesn't have enough balance for initialization",
            Error::ForceUnregister => "Force unregister is not allowed",
            Error::UnregisterPositiveUnstaked => "Can't unregister the account with the positive unstaked balance",
            Error::BpsSumOne => "bps sum should be less than 1",
            Error::TooManyBeneficiaries => "Too many beneficiaries",
            Error::NonPositiveStakingAmount => "Staking amount should be positive",
            Error::NonPositiveCalculatedStakingShare => "The calculated number of \"stake\" shares received for staking should be positive",
            Error::NoEnoughUnstakedBalance => "Not enough unstaked balance to stake",
            Error::NoEnoughWithdrawBalance => "No enough unstaked balance to withdraw",
            Error::NonPositiveUnstakingAmount => "Unstaking amount should be positive",
            Error::NonPositiveCalculatedUnstakingShare => "Invariant violation. The calculated number of \"stake\" shares for unstaking should be positive",
            Error::NonPositiveTotalStakedBalance => "The total staked balance can't be 0",
            Error::NonPositiveTotalStakeShares => "The total number of stake shares can't be 0",
            Error::ContractNoStakedBalance => "Invariant violation. The calculated number of \"stake\" shares for unstaking should be positive",
            Error::NonZeroWeight => "Validator weight must be zero for drain operation",
            Error::NonZeroBaseStakeAmount => "Validator base stake amount must be zero for drain operation",
            Error::BadUnstakedAmount => "Validator unstaked amount too large for drain unstake",
            Error::NonZeroStakedAmount => "Validator staked amount must be zero when drain withdraw",
            Error::Draining => "Validator is currently in draining process",
            Error::NotInDraining => "Validator is not in draining process. Cannot run drain withdraw",
            Error::NonPositiveDepositAmount => "Deposit amount should be positive",
            Error::NonPositiveWithdrawalAmount => "Withdrawal amount should be positive",
            Error::NoEnoughUnstakedBalanceToWithdraw => "Not enough unstaked balance to withdraw",
            Error::UnstakedBalanceNotAvailable => "The unstaked balance is not yet available due to unstaking delay",
            Error::NoEnoughContractBalance => "No enough balance in contract to perform withdraw",
            Error::MinReserve => "Contract min reserve error",
            Error::ValidatorNotExist => "Validator not exist",
            Error::ValidatorAlreadyExist => "Validator already exists",
            Error::ValidatorInUse => "Validator is in use, cannot remove",
            Error::BadValidatorList => "Bad validator list",
            Error::TooManyWeightUpdates => "The number of validators to be updated at a time cannot exceed 300",
            Error::ValidatorNotWhitelisted => "Validator not whitelisted",
            Error::ValidatorUnstakeAmount => "No enough amount to unstake from validator",
            Error::ValidatorUnstakeWhenLocked => "Cannot unstake from a pending release validator",
            Error::ValidatorWithdrawWhenLocked => "Cannot withdraw from a pending release validator",
            Error::ValidatorAlreadyExecutingAction => "Validator is already executing action",
            Error::ValidatorSyncBalanceNotExpected => "Validator sync balance is expected to be called after stake or unstake",
            Error::NonPositiveShares => "Share number should be positive",
            Error::NoEnoughShares => "The account doesn't have enough balance",
            Error::ZeroDenominator => "Denominator must be a positive number",
            Error::FractionAboveOne => "The reward fee must be less or equal to 1",
            Error::ArithmeticOverflow => "Arithmetic overflow",
        }
    }

    /// What `message` returns, as a sequence of characters.
    pub open spec fn message_text(&self) -> Seq<char> {
        match self {
            Error::NoEnoughInitDeposit => "The account doesn't have enough balance for initialization"@,
            Error::ForceUnregister => "Force unregister is not allowed"@,
            Error::UnregisterPositiveUnstaked => "Can't unregister the account with the positive unstaked balance"@,
            Error::BpsSumOne => "bps sum should be less than 1"@,
            Error::TooManyBeneficiaries => "Too many beneficiaries"@,
            Error::NonPositiveStakingAmount => "Staking amount should be positive"@,
            Error::NonPositiveCalculatedStakingShare => "The calculated number of \"stake\" shares received for staking should be positive"@,
            Error::NoEnoughUnstakedBalance => "Not enough unstaked balance to stake"@,
            Error::NoEnoughWithdrawBalance => "No enough unstaked balance to withdraw"@,
            Error::NonPositiveUnstakingAmount => "Unstaking amount should be positive"@,
            Error::NonPositiveCalculatedUnstakingShare => "Invariant violation. The calculated number of \"stake\" shares for unstaking should be positive"@,
            Error::NonPositiveTotalStakedBalance => "The total staked balance can't be 0"@,
            Error::NonPositiveTotalStakeShares => "The total number of stake shares can't be 0"@,
            Error::ContractNoStakedBalance => "Invariant violation. The calculated number of \"stake\" shares for unstaking should be positive"@,
            Error::NonZeroWeight => "Validator weight must be zero for drain operation"@,
            Error::NonZeroBaseStakeAmount => "Validator base stake amount must be zero for drain operation"@,
            Error::BadUnstakedAmount => "Validator unstaked amount too large for drain unstake"@,
            Error::NonZeroStakedAmount => "Validator staked amount must be zero when drain withdraw"@,
            Error::Draining => "Validator is currently in draining process"@,
            Error::NotInDraining => "Validator is not in draining process. Cannot run drain withdraw"@,
            Error::NonPositiveDepositAmount => "Deposit amount should be positive"@,
            Error::NonPositiveWithdrawalAmount => "Withdrawal amount should be positive"@,
            Error::NoEnoughUnstakedBalanceToWithdraw => "Not enough unstaked balance to withdraw"@,
            Error::UnstakedBalanceNotAvailable => "The unstaked balance is not yet available due to unstaking delay"@,
            Error::NoEnoughContractBalance => "No enough balance in contract to perform withdraw"@,
            Error::MinReserve => "Contract min reserve error"@,
            Error::ValidatorNotExist => "Validator not exist"@,
            Error::ValidatorAlreadyExist => "Validator already exists"@,
            Error::ValidatorInUse => "Validator is in use, cannot remove"@,
            Error::BadValidatorList => "Bad validator list"@,
            Error::TooManyWeightUpdates => "The number of validators to be updated at a time cannot exceed 300"@,
            Error::ValidatorNotWhitelisted => "Validator not whitelisted"@,
            Error::ValidatorUnstakeAmount => "No enough amount to unstake from validator"@,
            Error::ValidatorUnstakeWhenLocked => "Cannot unstake from a pending release validator"@,
            Error::ValidatorWithdrawWhenLocked => "Cannot withdraw from a pending release validator"@,
            Error::ValidatorAlreadyExecutingAction => "Validator is already executing action"@,
            Error::ValidatorSyncBalanceNotExpected => "Validator sync balance is expected to be called after stake or unstake"@,
            Error::NonPositiveShares => "Share number should be positive"@,
            Error::NoEnoughShares => "The account doesn't have enough balance"@,
            Error::ZeroDenominator => "Denominator must be a positive number"@,
            Error::FractionAboveOne => "The reward fee must be less or equal to 1"@,
            Error::ArithmeticOverflow => "Arithmetic overflow"@,
        }
    }
}

} // verus!
