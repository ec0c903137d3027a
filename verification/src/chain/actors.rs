//! Methods of the built-in actors and what they take.

use crate::chain::address::Address;
use crate::chain::bigint::BigInt;
use vstd::prelude::*;

verus! {

/// Miner actor: withdraw from the available balance.
pub const METHOD_WITHDRAW_BALANCE: u64 = 16;

/// Miner actor: name a new owner.
pub const METHOD_CHANGE_OWNER: u64 = 23;

/// Miner actor: propose a new worker.
pub const METHOD_CHANGE_WORKER: u64 = 3;

/// Miner actor: confirm the proposed worker.
pub const METHOD_CONFIRM_CHANGE_WORKER: u64 = 21;

/// Market actor: withdraw from escrow.
pub const METHOD_MARKET_WITHDRAW: u64 = 2;

/// The text of the storage market actor's address.
pub const STORAGE_MARKET_ACTOR: &'static str = "f05";

/// What a withdrawal from a miner takes.
#[derive(Debug)]
pub struct WithdrawBalanceParams {
    pub amount: BigInt,
}

/// What a change of owner takes.
#[derive(Debug)]
pub struct ChangeOwnerParams {
    pub new_owner: Address,
}

/// What a change of worker takes.
#[derive(Debug)]
pub struct ChangeWorkerParams {
    pub new_worker: Address,
    pub new_control_addresses: Vec<Address>,
}

/// What a withdrawal from the market takes.
#[derive(Debug)]
pub struct MarketWithdrawParams {
    pub provider_or_client: Address,
    pub amount: BigInt,
}

} // verus!
