//! Chain data: addresses, amounts, messages and their canonical encoding.

pub mod actors;
pub mod address;
pub mod base32;
pub mod bigint;
pub mod bytes;
pub mod cbor;
pub mod decimal;
pub mod fil;
pub mod message;

pub use actors::{
    ChangeOwnerParams, ChangeWorkerParams, MarketWithdrawParams, WithdrawBalanceParams,
    METHOD_CHANGE_OWNER, METHOD_CHANGE_WORKER, METHOD_CONFIRM_CHANGE_WORKER,
    METHOD_MARKET_WITHDRAW, METHOD_WITHDRAW_BALANCE, STORAGE_MARKET_ACTOR,
};
pub use address::Address;
pub use bigint::BigInt;
pub use fil::format_fil;
pub use message::{Message, Signature, SignedMessage};
