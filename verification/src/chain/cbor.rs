//! Canonical binary encoding of messages.
//!
//! A message is written as a fixed array of ten items. Only the item forms
//! that a message needs are provided: unsigned and signed integers and byte
//! strings, each with the shortest head that holds its argument.

use crate::chain::address::{protocol_byte, Address, AddressView};
use crate::chain::base32;
use crate::chain::base32::encode_text;
use crate::chain::bigint::{abs, BigInt};
use crate::chain::bytes::{be_bytes, minimal_be, write_be};
use crate::chain::message::{Message, MessageView};
use crate::hash::{blake2b, blake2b_hash};
use vstd::prelude::*;
use vstd::string::*;

verus! {

/// The head of an item: the major type in the top three bits of the first
/// byte, and the argument in the shortest of the five forms that holds it.
pub open spec fn cbor_head(major: u8, arg: nat) -> Seq<u8> {
    if arg < 24 {
        seq![(major * 32 + arg) as u8]
    } else if arg < 0x100 {
        seq![(major * 32 + 24) as u8] + be_bytes(arg, 1)
    } else if arg < 0x1_0000 {
        seq![(major * 32 + 25) as u8] + be_bytes(arg, 2)
    } else if arg < 0x1_0000_0000 {
        seq![(major * 32 + 26) as u8] + be_bytes(arg, 4)
    } else {
        seq![(major * 32 + 27) as u8] + be_bytes(arg, 8)
    }
}

/// The encoding of an unsigned integer.
pub open spec fn cbor_uint(val: u64) -> Seq<u8> {
    cbor_head(0, val as nat)
}

/// The encoding of a signed integer: a value below zero is written as the
/// magnitude `-1 - val` under the major type reserved for negative integers.
pub open spec fn cbor_int(val: i64) -> Seq<u8> {
    if val >= 0 {
        cbor_head(0, val as nat)
    } else {
        cbor_head(1, (-1 - val) as nat)
    }
}

/// The encoding of a byte string: its length as the head, then the bytes.
pub open spec fn cbor_bytes(data: Seq<u8>) -> Seq<u8> {
    cbor_head(2, data.len()) + data
}

/// The longest byte string that has an encoding here.
pub const MAX_BYTES_LEN: u64 = 0xffff_ffff;

/// A byte string was too long for the widest length form in use.
#[derive(Debug, Clone, Copy, PartialEq, Eq, Structural)]
pub struct EncodingLimitError {
    /// Length of the byte string that was refused.
    pub len: u64,
}

/// Appends the head of an item of major type `major` with argument `arg`.
fn write_head(buf: &mut Vec<u8>, major: u8, arg: u64)
    requires
        major < 8,
    ensures
        final(buf)@ == old(buf)@ + cbor_head(major, arg as nat),
{
    let base: u8 = major * 32;
    if arg < 24 {
        buf.push(base + arg as u8);
        assert(buf@ == old(buf)@ + cbor_head(major, arg as nat));
    } else if arg < 0x100 {
        buf.push(base + 24);
        write_be(buf, arg, 1);
        assert(buf@ == old(buf)@ + cbor_head(major, arg as nat));
    } else if arg < 0x1_0000 {
        buf.push(base + 25);
        write_be(buf, arg, 2);
        assert(buf@ == old(buf)@ + cbor_head(major, arg as nat));
    } else if arg < 0x1_0000_0000 {
        buf.push(base + 26);
        write_be(buf, arg, 4);
        assert(buf@ == old(buf)@ + cbor_head(major, arg as nat));
    } else {
        buf.push(base + 27);
        write_be(buf, arg, 8);
        assert(buf@ == old(buf)@ + cbor_head(major, arg as nat));
    }
}

/// Appends an unsigned integer.
pub fn write_cbor_uint(buf: &mut Vec<u8>, val: u64)
    ensures
        final(buf)@ == old(buf)@ + cbor_uint(val),
{
    write_head(buf, 0, val);
}

/// Appends a signed integer.
pub fn write_cbor_int(buf: &mut Vec<u8>, val: i64)
    ensures
        final(buf)@ == old(buf)@ + cbor_int(val),
{
    if val >= 0 {
        write_head(buf, 0, val as u64);
    } else {
        let magnitude: u64 = (-(val + 1)) as u64;
        write_head(buf, 1, magnitude);
    }
}

/// Appends a byte string, or refuses it and leaves `buf` as it was when the
/// string is longer than `MAX_BYTES_LEN`.
pub fn write_cbor_bytes(buf: &mut Vec<u8>, data: &[u8]) -> (r: Result<(), EncodingLimitError>)
    ensures
        r is Ok <==> data@.len() <= MAX_BYTES_LEN,
        r is Ok ==> final(buf)@ == old(buf)@ + cbor_bytes(data@),
        r matches Err(e) ==> e.len == data@.len() && final(buf)@ == old(buf)@,
{
    let len: u64 = data.len() as u64;
    if len > MAX_BYTES_LEN {
        return Err(EncodingLimitError { len });
    }
    write_head(buf, 2, len);
    buf.extend_from_slice(data);
    assert(buf@ == old(buf)@ + cbor_bytes(data@));
    Ok(())
}

/// The bytes that stand for an address: the protocol byte, then the payload.
pub open spec fn address_bytes(address: AddressView) -> Seq<u8> {
    seq![protocol_byte(address.protocol)] + address.payload
}

/// The bytes that stand for an amount: none for zero; otherwise a sign byte,
/// 0 for an amount above zero and 1 for one below, then the shortest bytes
/// of the magnitude, most significant first.
pub open spec fn amount_bytes(amount: int) -> Seq<u8> {
    if amount == 0 {
        Seq::empty()
    } else {
        seq![if amount < 0 { 1u8 } else { 0u8 }] + minimal_be(abs(amount))
    }
}

/// First byte of every encoded message: the head of an array of ten items.
pub const MESSAGE_MARKER: u8 = 0x8a;

/// The canonical encoding of a message.
pub open spec fn message_bytes(m: MessageView) -> Seq<u8> {
    seq![MESSAGE_MARKER] + cbor_uint(m.version) + cbor_bytes(address_bytes(m.to)) + cbor_bytes(
        address_bytes(m.from),
    ) + cbor_uint(m.nonce) + cbor_bytes(amount_bytes(m.value)) + cbor_int(m.gas_limit)
        + cbor_bytes(amount_bytes(m.gas_fee_cap)) + cbor_bytes(amount_bytes(m.gas_premium))
        + cbor_uint(m.method) + cbor_bytes(m.params)
}

/// The length of the first byte string of a message, in the order of the
/// fields, that is too long to encode; `None` where every one fits.
pub open spec fn first_too_long(m: MessageView) -> Option<nat> {
    if address_bytes(m.to).len() > MAX_BYTES_LEN {
        Some(address_bytes(m.to).len())
    } else if address_bytes(m.from).len() > MAX_BYTES_LEN {
        Some(address_bytes(m.from).len())
    } else if amount_bytes(m.value).len() > MAX_BYTES_LEN {
        Some(amount_bytes(m.value).len())
    } else if amount_bytes(m.gas_fee_cap).len() > MAX_BYTES_LEN {
        Some(amount_bytes(m.gas_fee_cap).len())
    } else if amount_bytes(m.gas_premium).len() > MAX_BYTES_LEN {
        Some(amount_bytes(m.gas_premium).len())
    } else if m.params.len() > MAX_BYTES_LEN {
        Some(m.params.len())
    } else {
        None
    }
}

/// The six bytes in front of the digest in a content identifier: version 1,
/// the codec, and the code and length of the digest.
pub open spec fn cid_prefix() -> Seq<u8> {
    seq![0x01u8, 0x71u8, 0xa0u8, 0xe4u8, 0x02u8, 0x20u8]
}

/// Bytes of digest in a content identifier.
pub const CID_DIGEST_LEN: usize = 32;

/// The content identifier of `data`: the prefix, then the 32-byte digest.
pub open spec fn cid_bytes(data: Seq<u8>) -> Seq<u8> {
    cid_prefix() + blake2b(data, CID_DIGEST_LEN as nat)
}

/// The first byte of the encoding of every message is the marker.
pub proof fn lemma_message_marker(m: MessageView)
    ensures
        message_bytes(m).len() > 0,
        message_bytes(m)[0] == MESSAGE_MARKER,
{
}

/// Appends an address as a byte string; leaves `buf` as it was where the
/// byte string is too long.
pub fn write_address(buf: &mut Vec<u8>, addr: &Address) -> (r: Result<(), EncodingLimitError>)
    ensures
        r is Ok <==> address_bytes(addr@).len() <= MAX_BYTES_LEN,
        r is Ok ==> final(buf)@ == old(buf)@ + cbor_bytes(address_bytes(addr@)),
        r matches Err(e) ==> e.len == address_bytes(addr@).len() && final(buf)@ == old(buf)@,
{
    let mut addr_bytes: Vec<u8> = Vec::new();
    addr_bytes.push(addr.protocol.to_byte());
    addr_bytes.extend_from_slice(addr.payload.as_slice());
    assert(addr_bytes@ =~= address_bytes(addr@));
    write_cbor_bytes(buf, addr_bytes.as_slice())
}

/// Appends an amount as a byte string; leaves `buf` as it was where the
/// byte string is too long.
pub fn write_bigint(buf: &mut Vec<u8>, val: &BigInt) -> (r: Result<(), EncodingLimitError>)
    ensures
        r is Ok <==> amount_bytes(val@).len() <= MAX_BYTES_LEN,
        r is Ok ==> final(buf)@ == old(buf)@ + cbor_bytes(amount_bytes(val@)),
        r matches Err(e) ==> e.len == amount_bytes(val@).len() && final(buf)@ == old(buf)@,
{
    let mut bigint_bytes: Vec<u8> = Vec::new();
    if !val.is_zero() {
        let sign_byte: u8 = if val.is_negative() { 0x01 } else { 0x00 };
        bigint_bytes.push(sign_byte);
        bigint_bytes.extend_from_slice(val.magnitude().as_slice());
    }
    assert(bigint_bytes@ =~= amount_bytes(val@));
    write_cbor_bytes(buf, bigint_bytes.as_slice())
}

/// The canonical encoding of `msg`, or the length of the first byte string,
/// in the order of the fields, that is too long to encode.
pub fn serialize_message(msg: &Message) -> (r: Result<Vec<u8>, EncodingLimitError>)
    ensures
        match r {
            Ok(bytes) => first_too_long(msg@) is None && bytes@ == message_bytes(msg@)
                && bytes@.len() > 0 && bytes@[0] == MESSAGE_MARKER,
            Err(e) => first_too_long(msg@) == Some(e.len as nat),
        },
{
    let mut buf: Vec<u8> = Vec::new();
    buf.push(MESSAGE_MARKER);
    write_cbor_uint(&mut buf, msg.version);
    match write_address(&mut buf, &msg.to) {
        Err(e) => {
            return Err(e);
        },
        Ok(()) => {},
    }
    match write_address(&mut buf, &msg.from) {
        Err(e) => {
            return Err(e);
        },
        Ok(()) => {},
    }
    write_cbor_uint(&mut buf, msg.nonce);
    match write_bigint(&mut buf, &msg.value) {
        Err(e) => {
            return Err(e);
        },
        Ok(()) => {},
    }
    write_cbor_int(&mut buf, msg.gas_limit);
    match write_bigint(&mut buf, &msg.gas_fee_cap) {
        Err(e) => {
            return Err(e);
        },
        Ok(()) => {},
    }
    match write_bigint(&mut buf, &msg.gas_premium) {
        Err(e) => {
            return Err(e);
        },
        Ok(()) => {},
    }
    write_cbor_uint(&mut buf, msg.method);
    match write_cbor_bytes(&mut buf, msg.params.as_slice()) {
        Err(e) => {
            return Err(e);
        },
        Ok(()) => {},
    }
    assert(buf@ =~= message_bytes(msg@));
    Ok(buf)
}

/// The bytes of the content identifier of `data`; these are what is signed.
pub fn compute_cid_bytes(data: &[u8]) -> (cid: Vec<u8>)
    ensures
        cid@ == cid_bytes(data@),
        cid@.len() == 6 + CID_DIGEST_LEN,
{
    let hash = blake2b_hash(data, CID_DIGEST_LEN);
    let mut cid: Vec<u8> = Vec::new();
    cid.push(0x01);
    cid.push(0x71);
    cid.push(0xa0);
    cid.push(0xe4);
    cid.push(0x02);
    cid.push(0x20);
    cid.extend_from_slice(hash.as_slice());
    assert(cid@ =~= cid_bytes(data@));
    cid
}

/// The text of the content identifier of `data`, for display.
pub fn compute_cid(data: &[u8]) -> (text: String)
    ensures
        text@ == seq!['b'] + encode_text(cid_bytes(data@)),
{
    let cid = compute_cid_bytes(data);
    multibase_encode(cid.as_slice())
}

/// The base32 text of `data` behind the letter `b`, which names the base.
pub fn multibase_encode(data: &[u8]) -> (text: String)
    ensures
        text@ == seq!['b'] + encode_text(data@),
{
    let body = base32_encode(data);
    let mut text = String::from_str("b");
    proof {
        reveal_strlit("b");
    }
    text.append(body.as_str());
    assert(text@ =~= seq!['b'] + encode_text(data@));
    text
}

/// The base32 text of `data`.
pub fn base32_encode(data: &[u8]) -> (text: String)
    ensures
        text@ == encode_text(data@),
{
    base32::encode(data)
}

} // verus!
