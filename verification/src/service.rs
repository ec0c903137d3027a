//! The making of messages for the operations that the program offers.
//!
//! The node supplies the nonce and the gas estimate; what is decided here is
//! when they are asked for and what the message holds.

use crate::chain::actors::{
    METHOD_CHANGE_OWNER, METHOD_CHANGE_WORKER, METHOD_CONFIRM_CHANGE_WORKER,
    METHOD_MARKET_WITHDRAW, METHOD_WITHDRAW_BALANCE, STORAGE_MARKET_ACTOR,
};
use crate::chain::address::{parse_address, Address, AddressFormatError, AddressView};
use crate::chain::bigint::BigInt;
use crate::chain::decimal::{decimal_value, is_decimal};
use crate::chain::cbor::first_too_long;
use crate::chain::message::{Message, MessageView, SignedMessage};
use crate::wallet::signer::{
    is_refused_by, is_signature_by, message_cid, sign, SigningError, StoredKey,
};
use vstd::prelude::*;
use vstd::string::*;

verus! {

/// The amount that a decimal text stands for; zero where it is none.
pub open spec fn lenient_amount(text: Seq<char>) -> int {
    if is_decimal(text) {
        decimal_value(text)
    } else {
        0
    }
}

/// What goes into a message besides the addresses.
pub struct MessageFields {
    pub nonce: u64,
    pub value: int,
    pub gas_limit: i64,
    pub gas_fee_cap: int,
    pub gas_premium: int,
    pub method: u64,
    pub params: Seq<u8>,
}

/// The message of version 0 from `from` to `to`, where both are addresses;
/// otherwise what is wrong with `to`, or else with `from`.
pub open spec fn message_between(from: Seq<char>, to: Seq<char>, fields: MessageFields) -> Result<
    MessageView,
    AddressFormatError,
> {
    match (parse_address(to), parse_address(from)) {
        (Err(e), _) => Err(e),
        (Ok(_), Err(e)) => Err(e),
        (Ok(to), Ok(from)) => Ok(
            MessageView {
                version: 0,
                to,
                from,
                nonce: fields.nonce,
                value: fields.value,
                gas_limit: fields.gas_limit,
                gas_fee_cap: fields.gas_fee_cap,
                gas_premium: fields.gas_premium,
                method: fields.method,
                params: fields.params,
            },
        ),
    }
}

/// The nonce to use where one was given and is not zero; `None` where the
/// node has to be asked.
pub fn given_nonce(nonce: Option<u64>) -> (r: Option<u64>)
    ensures
        r == (match nonce {
            Some(n) if n > 0 => Some(n),
            _ => None::<u64>,
        }),
{
    match nonce {
        Some(n) => if n > 0 {
            Some(n)
        } else {
            None
        },
        None => None,
    }
}

/// Whether the node has to estimate the gas of a message: it has where no
/// gas limit was set.
pub fn needs_gas_estimate(msg: &Message) -> (r: bool)
    ensures
        r == (msg.gas_limit == 0),
{
    msg.gas_limit == 0
}

/// A transfer with the gas settings that the caller chose. The amounts are
/// decimal texts of attoFIL; one that is no decimal text counts as zero.
pub fn transfer_message(
    from: &str,
    to: &str,
    amount: &str,
    gas_premium: &str,
    gas_feecap: &str,
    gas_limit: i64,
    method: u64,
    nonce: u64,
) -> (r: Result<Message, AddressFormatError>)
    ensures
        match r {
            Ok(m) => message_between(
                from@,
                to@,
                MessageFields {
                    nonce,
                    value: lenient_amount(amount@),
                    gas_limit,
                    gas_fee_cap: lenient_amount(gas_feecap@),
                    gas_premium: lenient_amount(gas_premium@),
                    method,
                    params: Seq::empty(),
                },
            ) == Ok::<MessageView, AddressFormatError>(m@),
            Err(e) => (parse_address(to@) == Err::<AddressView, AddressFormatError>(e)) || (
            parse_address(to@) is Ok && parse_address(from@) == Err::<
                AddressView,
                AddressFormatError,
            >(e)),
        },
{
    let to = match Address::from_string(to) {
        Ok(a) => a,
        Err(e) => {
            return Err(e);
        },
    };
    let from = match Address::from_string(from) {
        Ok(a) => a,
        Err(e) => {
            return Err(e);
        },
    };
    Ok(
        Message {
            version: 0,
            to,
            from,
            nonce,
            value: BigInt::from_str(amount),
            gas_limit,
            gas_fee_cap: BigInt::from_str(gas_feecap),
            gas_premium: BigInt::from_str(gas_premium),
            method,
            params: Vec::new(),
        },
    )
}

/// A call of `method` with `params`, before the gas is estimated: the gas
/// fields are zero. The value is a decimal text of attoFIL; one that is no
/// decimal text counts as zero.
pub fn build_message(
    from: &str,
    to: &str,
    method: u64,
    value: &str,
    params: Vec<u8>,
    nonce: u64,
) -> (r: Result<Message, AddressFormatError>)
    ensures
        match r {
            Ok(m) => message_between(
                from@,
                to@,
                MessageFields {
                    nonce,
                    value: lenient_amount(value@),
                    gas_limit: 0,
                    gas_fee_cap: 0,
                    gas_premium: 0,
                    method,
                    params: params@,
                },
            ) == Ok::<MessageView, AddressFormatError>(m@),
            Err(e) => (parse_address(to@) == Err::<AddressView, AddressFormatError>(e)) || (
            parse_address(to@) is Ok && parse_address(from@) == Err::<
                AddressView,
                AddressFormatError,
            >(e)),
        },
{
    let to = match Address::from_string(to) {
        Ok(a) => a,
        Err(e) => {
            return Err(e);
        },
    };
    let from = match Address::from_string(from) {
        Ok(a) => a,
        Err(e) => {
            return Err(e);
        },
    };
    Ok(
        Message {
            version: 0,
            to,
            from,
            nonce,
            value: BigInt::from_str(value),
            gas_limit: 0,
            gas_fee_cap: BigInt::zero(),
            gas_premium: BigInt::zero(),
            method,
            params,
        },
    )
}

/// The operations on actors that the program offers.
#[derive(Debug, Clone, Copy, PartialEq, Eq, Structural)]
pub enum ActorCall {
    /// Withdraw from a miner's available balance.
    MinerWithdraw,
    /// Withdraw from the storage market.
    MarketWithdraw,
    /// Name a new owner of a miner.
    ChangeOwner,
    /// Propose a new worker of a miner.
    ProposeChangeWorker,
    /// Confirm the proposed worker of a miner.
    ConfirmChangeWorker,
}

/// The method that an operation calls.
pub open spec fn call_method(call: ActorCall) -> u64 {
    match call {
        ActorCall::MinerWithdraw => METHOD_WITHDRAW_BALANCE,
        ActorCall::MarketWithdraw => METHOD_MARKET_WITHDRAW,
        ActorCall::ChangeOwner => METHOD_CHANGE_OWNER,
        ActorCall::ProposeChangeWorker => METHOD_CHANGE_WORKER,
        ActorCall::ConfirmChangeWorker => METHOD_CONFIRM_CHANGE_WORKER,
    }
}

/// The text of the address that an operation on `target` is sent to: the
/// storage market for a withdrawal from it, otherwise `target`.
pub open spec fn call_recipient(call: ActorCall, target: Seq<char>) -> Seq<char> {
    match call {
        ActorCall::MarketWithdraw => "f05"@,
        _ => target,
    }
}

/// The message that carries out `call` on `target` with the encoded
/// parameters `params`, before the gas is estimated. It carries no value.
pub fn actor_message(call: ActorCall, target: &str, from: &str, params: Vec<u8>, nonce: u64) -> (r:
    Result<Message, AddressFormatError>)
    ensures
        match r {
            Ok(m) => message_between(
                from@,
                call_recipient(call, target@),
                MessageFields {
                    nonce,
                    value: 0,
                    gas_limit: 0,
                    gas_fee_cap: 0,
                    gas_premium: 0,
                    method: call_method(call),
                    params: params@,
                },
            ) == Ok::<MessageView, AddressFormatError>(m@),
            Err(e) => (parse_address(call_recipient(call, target@)) == Err::<
                AddressView,
                AddressFormatError,
            >(e)) || (parse_address(call_recipient(call, target@)) is Ok && parse_address(from@)
                == Err::<AddressView, AddressFormatError>(e)),
        },
{
    let (to, method) = match call {
        ActorCall::MinerWithdraw => (target, METHOD_WITHDRAW_BALANCE),
        ActorCall::MarketWithdraw => (STORAGE_MARKET_ACTOR, METHOD_MARKET_WITHDRAW),
        ActorCall::ChangeOwner => (target, METHOD_CHANGE_OWNER),
        ActorCall::ProposeChangeWorker => (target, METHOD_CHANGE_WORKER),
        ActorCall::ConfirmChangeWorker => (target, METHOD_CONFIRM_CHANGE_WORKER),
    };
    proof {
        reveal_strlit("0");
        reveal_strlit("f05");
        assert(is_decimal("0"@));
        assert("0"@.drop_last() =~= Seq::<char>::empty());
        assert(decimal_value("0"@) == 0) by {
            reveal_with_fuel(crate::chain::decimal::digits_value, 2);
        }
    }
    build_message(from, to, method, "0", params, nonce)
}

/// Signs `msg` with the key that the key store gave for the sender and
/// joins the two.
pub fn sign_message(msg: Message, key: Option<&StoredKey>) -> (r: Result<
    SignedMessage,
    SigningError,
>)
    ensures
        match r {
            Ok(signed) => key matches Some(k) && signed.message@ == msg@ && first_too_long(msg@)
                is None && is_signature_by(
                k.key_type@,
                k.private_key@,
                message_cid(msg@),
                signed.signature@,
            ) && signed.signature.well_formed(),
            Err(SigningError::KeyNotFound) => key is None,
            Err(SigningError::EncodingLimit(e)) => key is Some && first_too_long(msg@) == Some(
                e.len as nat,
            ),
            Err(SigningError::UnknownKeyType) => key matches Some(k) && first_too_long(msg@) is None
                && k.key_type@ != "secp256k1"@ && k.key_type@ != "bls"@,
            Err(SigningError::InvalidKeyLength) => key matches Some(k) && first_too_long(msg@)
                is None && k.key_type@ == "bls"@ && k.private_key@.len() != 32,
            Err(SigningError::CryptoFailure(_)) => key matches Some(k) && first_too_long(msg@)
                is None && is_refused_by(k.key_type@, k.private_key@, message_cid(msg@)),
        },
{
    match sign(&msg, key) {
        Ok(signature) => Ok(SignedMessage { message: msg, signature }),
        Err(e) => Err(e),
    }
}

} // verus!
