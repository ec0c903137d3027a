//! Messages, signatures and signed messages.

use crate::chain::address::{Address, AddressView};
use crate::chain::bigint::BigInt;
use vstd::prelude::*;

verus! {

/// A message to the chain: ten fields, in the order in which they are
/// encoded.
#[derive(Debug)]
pub struct Message {
    pub version: u64,
    pub to: Address,
    pub from: Address,
    pub nonce: u64,
    pub value: BigInt,
    pub gas_limit: i64,
    pub gas_fee_cap: BigInt,
    pub gas_premium: BigInt,
    pub method: u64,
    pub params: Vec<u8>,
}

/// What a message holds.
pub struct MessageView {
    pub version: u64,
    pub to: AddressView,
    pub from: AddressView,
    pub nonce: u64,
    pub value: int,
    pub gas_limit: i64,
    pub gas_fee_cap: int,
    pub gas_premium: int,
    pub method: u64,
    pub params: Seq<u8>,
}

impl View for Message {
    type V = MessageView;

    open spec fn view(&self) -> MessageView {
        MessageView {
            version: self.version,
            to: self.to@,
            from: self.from@,
            nonce: self.nonce,
            value: self.value@,
            gas_limit: self.gas_limit,
            gas_fee_cap: self.gas_fee_cap@,
            gas_premium: self.gas_premium@,
            method: self.method,
            params: self.params@,
        }
    }
}

impl Clone for Message {
    fn clone(&self) -> (r: Self)
        ensures
            r@ == self@,
    {
        Message {
            version: self.version,
            to: self.to.clone(),
            from: self.from.clone(),
            nonce: self.nonce,
            value: self.value.clone(),
            gas_limit: self.gas_limit,
            gas_fee_cap: self.gas_fee_cap.clone(),
            gas_premium: self.gas_premium.clone(),
            method: self.method,
            params: self.params.clone(),
        }
    }
}

/// Signature type of a secp256k1 signature.
pub const SIG_TYPE_SECP256K1: u8 = 1;

/// Signature type of a BLS signature.
pub const SIG_TYPE_BLS: u8 = 2;

/// A signature and the scheme that made it.
#[derive(Debug)]
pub struct Signature {
    pub sig_type: u8,
    pub data: Vec<u8>,
}

/// What a signature holds.
pub struct SignatureView {
    pub sig_type: u8,
    pub data: Seq<u8>,
}

impl View for Signature {
    type V = SignatureView;

    open spec fn view(&self) -> SignatureView {
        SignatureView { sig_type: self.sig_type, data: self.data@ }
    }
}

/// Bytes in the data of a secp256k1 signature: the compact signature and
/// the recovery identifier.
pub const SECP256K1_SIGNATURE_LEN: usize = 65;

/// Bytes in the data of a BLS signature.
pub const BLS_SIGNATURE_LEN: usize = 96;

impl Signature {
    /// Whether the data has the length that the scheme fixes.
    pub open spec fn well_formed(&self) -> bool {
        &&& self.sig_type == SIG_TYPE_SECP256K1 ==> self.data@.len() == SECP256K1_SIGNATURE_LEN
        &&& self.sig_type == SIG_TYPE_BLS ==> self.data@.len() == BLS_SIGNATURE_LEN
    }
}

impl Clone for Signature {
    fn clone(&self) -> (r: Self)
        ensures
            r@ == self@,
    {
        Signature { sig_type: self.sig_type, data: self.data.clone() }
    }
}

/// A message with the signature over it.
#[derive(Debug)]
pub struct SignedMessage {
    pub message: Message,
    pub signature: Signature,
}

impl Clone for SignedMessage {
    fn clone(&self) -> (r: Self)
        ensures
            r.message@ == self.message@,
            r.signature@ == self.signature@,
    {
        SignedMessage { message: self.message.clone(), signature: self.signature.clone() }
    }
}

} // verus!
