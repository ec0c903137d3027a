//! Addresses and their text form.
//!
//! An address is a protocol tag and a payload. Its text is a network letter,
//! the protocol digit, and the base32 text of the payload followed by a
//! four-byte checksum. The usual reading of a text drops the checksum
//! without verifying it; the strict reading verifies it.

use crate::chain::base32;
use crate::chain::base32::{decode_text, encode_text, lemma_decode_encode};
use crate::hash::{blake2b, blake2b_hash};
use vstd::prelude::*;
use vstd::std_specs::cmp::PartialEqSpecImpl;
use vstd::string::*;

verus! {

/// The four kinds of address.
#[derive(Debug, Clone, Copy, PartialEq, Eq, Structural)]
pub enum Protocol {
    /// An actor's number.
    ID,
    /// The hash of a secp256k1 public key.
    Secp256k1,
    /// The hash that names an actor.
    Actor,
    /// A BLS public key.
    BLS,
}

/// An address: the protocol and the bytes that the protocol defines.
#[derive(Debug)]
pub struct Address {
    pub protocol: Protocol,
    pub payload: Vec<u8>,
}

/// What an address holds.
pub struct AddressView {
    pub protocol: Protocol,
    pub payload: Seq<u8>,
}

/// Why a text is not an address.
#[derive(Debug, Clone, Copy, PartialEq, Eq, Structural)]
pub enum AddressFormatError {
    /// Fewer than three characters.
    TooShort,
    /// The first character is neither `f` nor `t`.
    UnknownNetwork,
    /// The second character is not a digit from 0 to 3.
    UnknownProtocol,
    /// A character after the second is outside the base32 alphabet.
    InvalidCharacter,
    /// The last four bytes are not the checksum of the rest. Only the
    /// strict reading reports this.
    ChecksumMismatch,
}

/// Bytes of checksum that follow the payload in the text form.
pub const CHECKSUM_LEN: usize = 4;

/// Bytes of payload in a secp256k1 address.
pub const SECP256K1_PAYLOAD_LEN: usize = 20;

/// Bytes of payload in a BLS address.
pub const BLS_PAYLOAD_LEN: usize = 48;

/// The byte that stands for a protocol.
pub open spec fn protocol_byte(protocol: Protocol) -> u8 {
    match protocol {
        Protocol::ID => 0,
        Protocol::Secp256k1 => 1,
        Protocol::Actor => 2,
        Protocol::BLS => 3,
    }
}

/// The digit that stands for a protocol.
pub open spec fn protocol_digit(protocol: Protocol) -> char {
    match protocol {
        Protocol::ID => '0',
        Protocol::Secp256k1 => '1',
        Protocol::Actor => '2',
        Protocol::BLS => '3',
    }
}

/// The protocol that a digit stands for.
pub open spec fn digit_protocol(c: char) -> Option<Protocol> {
    if c == '0' {
        Some(Protocol::ID)
    } else if c == '1' {
        Some(Protocol::Secp256k1)
    } else if c == '2' {
        Some(Protocol::Actor)
    } else if c == '3' {
        Some(Protocol::BLS)
    } else {
        None
    }
}

/// The checksum of an address: the four-byte digest of the protocol byte
/// followed by the payload.
pub open spec fn checksum(protocol: u8, payload: Seq<u8>) -> Seq<u8> {
    blake2b(seq![protocol] + payload, CHECKSUM_LEN as nat)
}

/// `bytes` without its last four; `bytes` itself where it has fewer.
pub open spec fn strip_checksum(bytes: Seq<u8>) -> Seq<u8> {
    if bytes.len() >= CHECKSUM_LEN {
        bytes.take(bytes.len() - CHECKSUM_LEN)
    } else {
        bytes
    }
}

/// The text form of `payload` under `protocol`, with `tail` in the place of
/// the checksum.
pub open spec fn text_with_tail(protocol: Protocol, payload: Seq<u8>, tail: Seq<u8>) -> Seq<char> {
    seq!['f', protocol_digit(protocol)] + encode_text(payload + tail)
}

/// The text form of an address.
pub open spec fn address_text(address: AddressView) -> Seq<char> {
    text_with_tail(
        address.protocol,
        address.payload,
        checksum(protocol_byte(address.protocol), address.payload),
    )
}

/// The protocol and the decoded bytes of a text, checksum included, or why
/// the text is no address.
pub open spec fn parse_parts(text: Seq<char>) -> Result<(Protocol, Seq<u8>), AddressFormatError> {
    if text.len() < 3 {
        Err(AddressFormatError::TooShort)
    } else if text[0] != 'f' && text[0] != 't' {
        Err(AddressFormatError::UnknownNetwork)
    } else {
        match (digit_protocol(text[1]), decode_text(text.skip(2))) {
            (None, _) => Err(AddressFormatError::UnknownProtocol),
            (Some(_), None) => Err(AddressFormatError::InvalidCharacter),
            (Some(protocol), Some(bytes)) => Ok((protocol, bytes)),
        }
    }
}

/// The address that a text stands for, or why it stands for none. The
/// checksum is dropped, whatever it is.
pub open spec fn parse_address(text: Seq<char>) -> Result<AddressView, AddressFormatError> {
    match parse_parts(text) {
        Ok((protocol, bytes)) => Ok(AddressView { protocol, payload: strip_checksum(bytes) }),
        Err(e) => Err(e),
    }
}

/// Whether the last four of `bytes` are the checksum of the bytes before
/// them under `protocol`.
pub open spec fn checksum_fits(protocol: Protocol, bytes: Seq<u8>) -> bool {
    bytes.len() >= CHECKSUM_LEN && bytes.skip(bytes.len() - CHECKSUM_LEN) == checksum(
        protocol_byte(protocol),
        strip_checksum(bytes),
    )
}

/// The address that a text stands for under the strict reading, which
/// accepts a text only with the checksum of its payload.
pub open spec fn parse_address_strict(text: Seq<char>) -> Result<AddressView, AddressFormatError> {
    match parse_parts(text) {
        Ok((protocol, bytes)) => if checksum_fits(protocol, bytes) {
            Ok(AddressView { protocol, payload: strip_checksum(bytes) })
        } else {
            Err(AddressFormatError::ChecksumMismatch)
        },
        Err(e) => Err(e),
    }
}

/// Decoding the text of `payload` and any four-byte `tail` gives `payload`:
/// what stands in the place of the checksum has no part in the result.
pub proof fn lemma_text_round_trip(protocol: Protocol, payload: Seq<u8>, tail: Seq<u8>)
    requires
        tail.len() == CHECKSUM_LEN,
    ensures
        parse_address(text_with_tail(protocol, payload, tail)) == Ok::<
            AddressView,
            AddressFormatError,
        >(AddressView { protocol, payload }),
{
    let text = text_with_tail(protocol, payload, tail);
    let body = encode_text(payload + tail);
    assert(text.skip(2) =~= body);
    lemma_decode_encode(payload + tail);
    assert(strip_checksum(payload + tail) =~= payload);
}

/// The strict reading accepts the text of `payload` followed by its
/// checksum, where the checksum has four bytes.
proof fn lemma_text_round_trip_strict(protocol: Protocol, payload: Seq<u8>)
    requires
        checksum(protocol_byte(protocol), payload).len() == CHECKSUM_LEN,
    ensures
        parse_address_strict(address_text(AddressView { protocol, payload })) == Ok::<
            AddressView,
            AddressFormatError,
        >(AddressView { protocol, payload }),
{
    let tail = checksum(protocol_byte(protocol), payload);
    let text = text_with_tail(protocol, payload, tail);
    assert(text.skip(2) =~= encode_text(payload + tail));
    lemma_decode_encode(payload + tail);
    assert(strip_checksum(payload + tail) =~= payload);
    assert((payload + tail).skip((payload + tail).len() - CHECKSUM_LEN) =~= tail);
}

/// What the strict reading accepts, the lenient reading reads as the same
/// address.
pub proof fn lemma_strict_implies_lenient(text: Seq<char>)
    requires
        parse_address_strict(text) is Ok,
    ensures
        parse_address(text) == parse_address_strict(text),
{
}

/// The same text under the test network's letter reads as the same address.
pub proof fn lemma_network_letter(text: Seq<char>)
    requires
        text.len() > 0,
        text[0] == 'f',
    ensures
        parse_address(text.update(0, 't')) == parse_address(text),
{
    if text.len() >= 3 {
        assert(text.update(0, 't').skip(2) =~= text.skip(2));
    }
}

impl View for Address {
    type V = AddressView;

    open spec fn view(&self) -> AddressView {
        AddressView { protocol: self.protocol, payload: self.payload@ }
    }
}

impl Clone for Address {
    fn clone(&self) -> (r: Self)
        ensures
            r@ == self@,
    {
        Address { protocol: self.protocol, payload: self.payload.clone() }
    }
}

impl PartialEq for Address {
    fn eq(&self, other: &Self) -> (r: bool) {
        let same_payload = self.payload == other.payload;
        assert(same_payload == (self.payload@ =~= other.payload@));
        self.protocol == other.protocol && same_payload
    }
}

impl PartialEqSpecImpl for Address {
    open spec fn obeys_eq_spec() -> bool {
        true
    }

    open spec fn eq_spec(&self, other: &Self) -> bool {
        self@ == other@
    }
}

impl Eq for Address {

}

/// The text of `payload` followed by its checksum under `protocol`.
pub fn base32_encode_with_checksum(protocol: u8, payload: &[u8]) -> (text: String)
    ensures
        text@ == encode_text(payload@ + checksum(protocol, payload@)),
        checksum(protocol, payload@).len() == CHECKSUM_LEN,
{
    let mut checksum_input: Vec<u8> = Vec::new();
    checksum_input.push(protocol);
    checksum_input.extend_from_slice(payload);
    assert(checksum_input@ =~= seq![protocol] + payload@);
    let sum = blake2b_hash(checksum_input.as_slice(), CHECKSUM_LEN);
    let mut data: Vec<u8> = Vec::new();
    data.extend_from_slice(payload);
    data.extend_from_slice(sum.as_slice());
    assert(data@ =~= payload@ + checksum(protocol, payload@));
    base32::encode(data.as_slice())
}

/// The text of `data` followed by the four-byte digest of `data`.
pub fn base32_encode(data: &[u8]) -> (text: String)
    ensures
        text@ == encode_text(data@ + blake2b(data@, CHECKSUM_LEN as nat)),
{
    let sum = blake2b_hash(data, CHECKSUM_LEN);
    let mut payload: Vec<u8> = Vec::new();
    payload.extend_from_slice(data);
    payload.extend_from_slice(sum.as_slice());
    assert(payload@ =~= data@ + blake2b(data@, CHECKSUM_LEN as nat));
    base32::encode(payload.as_slice())
}

/// Decodes `s` and drops the last four bytes, which hold the checksum. The
/// checksum is not verified.
pub fn base32_decode(s: &str) -> (r: Result<Vec<u8>, AddressFormatError>)
    ensures
        match r {
            Ok(bytes) => decode_text(s@) matches Some(all) && bytes@ == strip_checksum(all),
            Err(e) => decode_text(s@) is None && e == AddressFormatError::InvalidCharacter,
        },
{
    match base32::decode(s) {
        Some(mut bytes) => {
            if bytes.len() >= CHECKSUM_LEN {
                bytes.truncate(bytes.len() - CHECKSUM_LEN);
            }
            assert(bytes@ =~= strip_checksum(decode_text(s@).unwrap()));
            Ok(bytes)
        },
        None => Err(AddressFormatError::InvalidCharacter),
    }
}

impl Protocol {
    /// The byte that stands for this protocol.
    pub fn to_byte(&self) -> (b: u8)
        ensures
            b == protocol_byte(*self),
    {
        match self {
            Protocol::ID => 0,
            Protocol::Secp256k1 => 1,
            Protocol::Actor => 2,
            Protocol::BLS => 3,
        }
    }
}

impl Address {
    /// Whether the payload has the length that the protocol fixes.
    pub open spec fn well_formed(&self) -> bool {
        match self.protocol {
            Protocol::Secp256k1 => self.payload@.len() == SECP256K1_PAYLOAD_LEN,
            Protocol::BLS => self.payload@.len() == BLS_PAYLOAD_LEN,
            _ => true,
        }
    }

    /// The address of an uncompressed secp256k1 public key: the 20-byte
    /// digest of the key.
    pub fn new_secp256k1(pubkey: &[u8]) -> (r: Result<Self, AddressFormatError>)
        ensures
            r matches Ok(a) && a.protocol == Protocol::Secp256k1 && a.payload@ == blake2b(
                pubkey@,
                SECP256K1_PAYLOAD_LEN as nat,
            ) && a.well_formed(),
    {
        let hash = blake2b_hash(pubkey, SECP256K1_PAYLOAD_LEN);
        Ok(Address { protocol: Protocol::Secp256k1, payload: hash })
    }

    /// The address of a BLS public key: the key itself.
    pub fn new_bls(pubkey: &[u8]) -> (r: Result<Self, AddressFormatError>)
        ensures
            r matches Ok(a) && a.protocol == Protocol::BLS && a.payload@ == pubkey@,
    {
        let mut payload: Vec<u8> = Vec::new();
        payload.extend_from_slice(pubkey);
        Ok(Address { protocol: Protocol::BLS, payload })
    }

    /// The protocol and the decoded bytes of `s`, checksum included.
    fn read_parts(s: &str) -> (r: Result<(Protocol, Vec<u8>), AddressFormatError>)
        ensures
            match r {
                Ok((protocol, bytes)) => parse_parts(s@) == Ok::<
                    (Protocol, Seq<u8>),
                    AddressFormatError,
                >((protocol, bytes@)),
                Err(e) => parse_parts(s@) == Err::<(Protocol, Seq<u8>), AddressFormatError>(e),
            },
    {
        let n = s.unicode_len();
        if n < 3 {
            return Err(AddressFormatError::TooShort);
        }
        let network = s.get_char(0);
        if network != 'f' && network != 't' {
            return Err(AddressFormatError::UnknownNetwork);
        }
        let digit = s.get_char(1);
        let protocol = if digit == '0' {
            Protocol::ID
        } else if digit == '1' {
            Protocol::Secp256k1
        } else if digit == '2' {
            Protocol::Actor
        } else if digit == '3' {
            Protocol::BLS
        } else {
            return Err(AddressFormatError::UnknownProtocol);
        };
        let rest = s.substring_char(2, n);
        assert(rest@ =~= s@.skip(2));
        match base32::decode(rest) {
            Some(bytes) => Ok((protocol, bytes)),
            None => Err(AddressFormatError::InvalidCharacter),
        }
    }

    /// Reads an address from its text form. The checksum is dropped without
    /// being verified.
    pub fn from_string(s: &str) -> (r: Result<Self, AddressFormatError>)
        ensures
            match r {
                Ok(a) => parse_address(s@) == Ok::<AddressView, AddressFormatError>(a@),
                Err(e) => parse_address(s@) == Err::<AddressView, AddressFormatError>(e),
            },
    {
        match Address::read_parts(s) {
            Ok((protocol, bytes)) => {
                let mut payload = bytes;
                if payload.len() >= CHECKSUM_LEN {
                    payload.truncate(payload.len() - CHECKSUM_LEN);
                }
                assert(payload@ =~= strip_checksum(bytes@));
                Ok(Address { protocol, payload })
            },
            Err(e) => Err(e),
        }
    }

    /// Reads an address from its text form and verifies the checksum.
    pub fn from_string_strict(s: &str) -> (r: Result<Self, AddressFormatError>)
        ensures
            match r {
                Ok(a) => parse_address_strict(s@) == Ok::<AddressView, AddressFormatError>(a@),
                Err(e) => parse_address_strict(s@) == Err::<AddressView, AddressFormatError>(e),
            },
    {
        let (protocol, bytes) = match Address::read_parts(s) {
            Ok(parts) => parts,
            Err(e) => {
                return Err(e);
            },
        };
        if bytes.len() < CHECKSUM_LEN {
            return Err(AddressFormatError::ChecksumMismatch);
        }
        let mut payload = bytes;
        let given = payload.split_off(payload.len() - CHECKSUM_LEN);
        assert(payload@ =~= strip_checksum(bytes@));
        assert(given@ =~= bytes@.skip(bytes@.len() - CHECKSUM_LEN));
        let mut checksum_input: Vec<u8> = Vec::new();
        checksum_input.push(protocol.to_byte());
        checksum_input.extend_from_slice(payload.as_slice());
        assert(checksum_input@ =~= seq![protocol_byte(protocol)] + payload@);
        let expected = blake2b_hash(checksum_input.as_slice(), CHECKSUM_LEN);
        let fits = given == expected;
        assert(fits == (given@ =~= expected@));
        if fits {
            Ok(Address { protocol, payload })
        } else {
            Err(AddressFormatError::ChecksumMismatch)
        }
    }

    /// The text form on the main network. Reading it, strictly or not, gives
    /// the address back.
    pub fn to_string(&self) -> (text: String)
        ensures
            text@ == address_text(self@),
            parse_address(text@) == Ok::<AddressView, AddressFormatError>(self@),
            parse_address_strict(text@) == Ok::<AddressView, AddressFormatError>(self@),
    {
        let prefix = match self.protocol {
            Protocol::ID => "f0",
            Protocol::Secp256k1 => "f1",
            Protocol::Actor => "f2",
            Protocol::BLS => "f3",
        };
        proof {
            reveal_strlit("f0");
            reveal_strlit("f1");
            reveal_strlit("f2");
            reveal_strlit("f3");
        }
        let body = base32_encode_with_checksum(self.protocol.to_byte(), self.payload.as_slice());
        let mut text = String::from_str(prefix);
        text.append(body.as_str());
        proof {
            assert(text@ =~= address_text(self@));
            lemma_text_round_trip(
                self.protocol,
                self.payload@,
                checksum(protocol_byte(self.protocol), self.payload@),
            );
            lemma_text_round_trip_strict(self.protocol, self.payload@);
        }
        text
    }
}

} // verus!
