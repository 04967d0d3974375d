//! Accounting and allocation core of a liquid-staking pool.
//!
//! The pool turns deposits into shares, nets the stake and unstake demand of
//! each epoch, and spreads the pooled capital over a set of validators. Every
//! function here works on plain values: the host reads the clock, the balances
//! and the outcome of each call to a validator, and hands them in; what a
//! function returns tells the host which call to make next.
//!
//! - [`math`]: multiplication and division in full width
//! - [`utils`], [`errors`]: constants, small helpers, and the reasons for a refusal
//! - [`contract`]: the state of the pool and the price of a share
//! - [`account`], [`stake_pool_itf`]: deposit, withdraw, stake and unstake of a participant
//! - [`validator`], [`validator_pool`]: one validator, and all of them
//! - [`allocation`]: the target of each validator and the choice of the next one
//! - [`epoch_actions`]: the settlement of an epoch, trigger by trigger
//! - [`operator`], [`owner`]: what the operators and the owner set
//! - [`internal`]: the beneficiaries' shares of the rewards
//! - [`view`]: what the pool shows of itself

pub mod account;
pub mod allocation;
pub mod contract;
pub mod epoch_actions;
pub mod errors;
pub mod internal;
pub mod math;
pub mod operator;
pub mod owner;
pub mod stake_pool_itf;
pub mod utils;
pub mod validator;
pub mod validator_pool;
pub mod view;
