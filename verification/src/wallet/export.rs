//! Private keys as text.
//!
//! A key is written as the hex of its bytes. It is read from that form, or
//! from the JSON with which other wallets export a key, which names the
//! type of the key and holds its bytes in base64; the JSON may itself come
//! as hex.

use crate::text::{chars_of, eq_str};
use crate::wallet::key::KeyType;
use vstd::prelude::*;
use vstd::string::*;
use vstd::utf8::{decode_utf8, valid_utf8};

verus! {

/// Why a text holds no key.
#[derive(Debug, Clone, Copy, PartialEq, Eq, Structural)]
pub enum KeyTextError {
    /// The text is not hex: its length is odd, or a character is no hex
    /// digit.
    InvalidHex,
    /// The bytes that the hex holds are not UTF-8.
    InvalidUtf8,
    /// The text is not JSON.
    InvalidJson,
    /// The JSON has no text under `PrivateKey`.
    MissingPrivateKey,
    /// The text under `PrivateKey` is not base64.
    InvalidBase64,
}

/// A private key as it was exported: the name of its type and its bytes.
#[derive(Debug)]
pub struct ExportedKey {
    pub key_type: String,
    pub private_key: Vec<u8>,
}

/// What an exported key holds.
pub struct ExportedKeyView {
    pub key_type: Seq<char>,
    pub private_key: Seq<u8>,
}

impl View for ExportedKey {
    type V = ExportedKeyView;

    open spec fn view(&self) -> ExportedKeyView {
        ExportedKeyView { key_type: self.key_type@, private_key: self.private_key@ }
    }
}

/// Whether `c` is a hex digit, in either case.
pub open spec fn is_hex_digit(c: char) -> bool {
    ('0' <= c && c <= '9') || ('a' <= c && c <= 'f') || ('A' <= c && c <= 'F')
}

/// The value of a hex digit.
pub open spec fn hex_digit_value(c: char) -> nat {
    if '0' <= c && c <= '9' {
        (c as u8 - '0' as u8) as nat
    } else if 'a' <= c && c <= 'f' {
        (c as u8 - 'a' as u8 + 10) as nat
    } else {
        (c as u8 - 'A' as u8 + 10) as nat
    }
}

/// Whether `s` is hex: hex digits, an even number of them.
pub open spec fn is_hex(s: Seq<char>) -> bool {
    &&& s.len() % 2 == 0
    &&& forall|i: int| 0 <= i < s.len() ==> is_hex_digit(#[trigger] s[i])
}

/// The bytes that hex holds: one for each two digits, the first digit for
/// the upper half.
pub open spec fn hex_bytes(s: Seq<char>) -> Seq<u8> {
    Seq::new(
        s.len() / 2,
        |i: int| (16 * hex_digit_value(s[2 * i]) + hex_digit_value(s[2 * i + 1])) as u8,
    )
}

/// The lower-case hex digit of a value below sixteen.
pub open spec fn hex_digit(v: nat) -> char {
    "0123456789abcdef"@[v as int]
}

/// The hex of `bytes`, in lower case.
pub open spec fn hex_text(bytes: Seq<u8>) -> Seq<char> {
    Seq::new(
        2 * bytes.len(),
        |i: int|
            hex_digit(
                if i % 2 == 0 {
                    (bytes[i / 2] / 16) as nat
                } else {
                    (bytes[i / 2] % 16) as nat
                },
            ),
    )
}

/// The bytes that a text holds in base64, with the standard alphabet and
/// padding; `None` where the text is not base64.
pub uninterp spec fn base64_decoded(text: Seq<char>) -> Option<Seq<u8>>;

/// The text under `field` in the JSON object that `json` writes: `None`
/// where `json` is not JSON, and no text where it is not an object or holds
/// no text under `field`.
pub uninterp spec fn json_text_field(json: Seq<char>, field: Seq<char>) -> Option<
    Option<Seq<char>>,
>;

/// Decodes with `hex::decode`. Taken on trust: a text is accepted exactly
/// when it is an even number of hex digits, and each two of them give one
/// byte, the first digit for the upper half.
#[verifier::external_body]
fn hex_decode(s: &str) -> (r: Option<Vec<u8>>)
    ensures
        r is Some <==> is_hex(s@),
        r matches Some(bytes) ==> bytes@ == hex_bytes(s@),
{
    hex::decode(s).ok()
}

/// Encodes with `hex::encode`. Taken on trust: each byte gives two digits
/// in lower case, the upper half first.
#[verifier::external_body]
fn hex_encode(bytes: &[u8]) -> (text: String)
    ensures
        text@ == hex_text(bytes@),
{
    hex::encode(bytes)
}

/// Reads bytes as text with `String::from_utf8`. Taken on trust: bytes are
/// accepted exactly when they are UTF-8, and give the text that they
/// encode.
#[verifier::external_body]
fn utf8_text(bytes: Vec<u8>) -> (r: Option<String>)
    ensures
        r is Some <==> valid_utf8(bytes@),
        r matches Some(text) ==> text@ == decode_utf8(bytes@),
{
    String::from_utf8(bytes).ok()
}

/// Decodes with `base64`'s `STANDARD` engine, through `Engine::decode`.
/// Taken on trust: the outcome is the one that `base64_decoded` names.
#[verifier::external_body]
fn base64_decode(s: &str) -> (r: Option<Vec<u8>>)
    ensures
        r is Some <==> base64_decoded(s@) is Some,
        r matches Some(bytes) ==> Some(bytes@) == base64_decoded(s@),
{
    base64::Engine::decode(&base64::engine::general_purpose::STANDARD, s).ok()
}

/// Parses with `serde_json::from_str` and reads the text under `field`
/// through `Value`'s index and `as_str`. Taken on trust: the outcome is the
/// one that `json_text_field` names.
#[verifier::external_body]
fn json_field(json: &str, field: &str) -> (r: Option<Option<String>>)
    ensures
        r is Some <==> json_text_field(json@, field@) is Some,
        r matches Some(None) ==> json_text_field(json@, field@) == Some(None::<Seq<char>>),
        r matches Some(Some(text)) ==> json_text_field(json@, field@) == Some(Some(text@)),
{
    let value: serde_json::Value = serde_json::from_str(json).ok()?;
    Some(value[field].as_str().map(String::from))
}

/// The type that a key without a named type is taken to have.
pub open spec fn default_key_type() -> Seq<char> {
    "secp256k1"@
}

/// The key that the JSON form holds: its type is the text under `Type`,
/// or secp256k1 where there is none; its bytes are the base64 under
/// `PrivateKey`.
pub open spec fn read_key_json_spec(json: Seq<char>) -> Result<ExportedKeyView, KeyTextError> {
    match json_text_field(json, "Type"@) {
        None => Err(KeyTextError::InvalidJson),
        Some(key_type) => match json_text_field(json, "PrivateKey"@) {
            None => Err(KeyTextError::InvalidJson),
            Some(None) => Err(KeyTextError::MissingPrivateKey),
            Some(Some(text)) => match base64_decoded(text) {
                None => Err(KeyTextError::InvalidBase64),
                Some(private_key) => Ok(
                    ExportedKeyView {
                        key_type: match key_type {
                            Some(name) => name,
                            None => default_key_type(),
                        },
                        private_key,
                    },
                ),
            },
        },
    }
}

/// Whether `s` starts with the hex of `{"`, as the hex of a JSON object
/// does.
pub open spec fn has_json_prefix(s: Seq<char>) -> bool {
    s.len() >= 4 && s[0] == '7' && s[1] == 'b' && s[2] == '2' && s[3] == '2'
}

/// The key that a text holds. A text that starts with the hex of `{"` is
/// the hex of the JSON form; any other is the JSON form itself where
/// `format` is `json`, and otherwise the hex of a secp256k1 key.
pub open spec fn read_exported_key_spec(text: Seq<char>, format: Seq<char>) -> Result<
    ExportedKeyView,
    KeyTextError,
> {
    if has_json_prefix(text) {
        if !is_hex(text) {
            Err(KeyTextError::InvalidHex)
        } else if !valid_utf8(hex_bytes(text)) {
            Err(KeyTextError::InvalidUtf8)
        } else {
            read_key_json_spec(decode_utf8(hex_bytes(text)))
        }
    } else if format == "json"@ {
        read_key_json_spec(text)
    } else if !is_hex(text) {
        Err(KeyTextError::InvalidHex)
    } else {
        Ok(ExportedKeyView { key_type: default_key_type(), private_key: hex_bytes(text) })
    }
}

/// Each value below sixteen has a hex digit, whose value it is.
pub proof fn lemma_hex_digit(v: nat)
    requires
        v < 16,
    ensures
        is_hex_digit(hex_digit(v)),
        hex_digit_value(hex_digit(v)) == v,
{
    reveal_strlit("0123456789abcdef");
}

/// The hex of bytes is hex and holds those bytes.
pub proof fn lemma_hex_round_trip(bytes: Seq<u8>)
    ensures
        is_hex(hex_text(bytes)),
        hex_bytes(hex_text(bytes)) == bytes,
{
    let text = hex_text(bytes);
    assert forall|i: int| 0 <= i < text.len() implies is_hex_digit(#[trigger] text[i]) by {
        lemma_hex_digit((bytes[i / 2] / 16) as nat);
        lemma_hex_digit((bytes[i / 2] % 16) as nat);
    }
    assert forall|i: int| 0 <= i < bytes.len() implies hex_bytes(text)[i] == bytes[i] by {
        lemma_hex_digit((bytes[i] / 16) as nat);
        lemma_hex_digit((bytes[i] % 16) as nat);
        assert((2 * i) / 2 == i && (2 * i + 1) / 2 == i);
    }
    assert(hex_bytes(text) =~= bytes);
}

/// A secp256k1 key that was written as hex is read back from it, unless its
/// first two bytes are those of `{"`, with which the hex of the JSON form
/// starts.
pub proof fn lemma_read_exported(private_key: Seq<u8>, format: Seq<char>)
    requires
        !(private_key.len() >= 2 && private_key[0] == 0x7b && private_key[1] == 0x22),
        format != "json"@,
    ensures
        read_exported_key_spec(hex_text(private_key), format) == Ok::<
            ExportedKeyView,
            KeyTextError,
        >(ExportedKeyView { key_type: default_key_type(), private_key }),
{
    lemma_hex_round_trip(private_key);
    let text = hex_text(private_key);
    reveal_strlit("0123456789abcdef");
    if private_key.len() >= 2 {
        let a = private_key[0];
        let b = private_key[1];
        assert(text[0] == hex_digit((a / 16) as nat));
        assert(text[1] == hex_digit((a % 16) as nat));
        assert(text[2] == hex_digit((b / 16) as nat));
        assert(text[3] == hex_digit((b % 16) as nat));
        if has_json_prefix(text) {
            assert(a / 16 == 7 && a % 16 == 11);
            assert(b / 16 == 2 && b % 16 == 2);
        }
    }
}

/// The hex of a private key.
pub fn export_key(private_key: &[u8]) -> (text: String)
    ensures
        text@ == hex_text(private_key@),
        is_hex(text@),
        hex_bytes(text@) == private_key@,
{
    proof {
        lemma_hex_round_trip(private_key@);
    }
    hex_encode(private_key)
}

/// The bytes of a key that was written as hex.
pub fn read_key_hex(text: &str) -> (r: Result<Vec<u8>, KeyTextError>)
    ensures
        match r {
            Ok(private_key) => is_hex(text@) && private_key@ == hex_bytes(text@),
            Err(e) => !is_hex(text@) && e == KeyTextError::InvalidHex,
        },
{
    match hex_decode(text) {
        Some(private_key) => Ok(private_key),
        None => Err(KeyTextError::InvalidHex),
    }
}

/// The key that the JSON form holds.
pub fn read_key_json(json: &str) -> (r: Result<ExportedKey, KeyTextError>)
    ensures
        match r {
            Ok(key) => read_key_json_spec(json@) == Ok::<ExportedKeyView, KeyTextError>(key@),
            Err(e) => read_key_json_spec(json@) == Err::<ExportedKeyView, KeyTextError>(e),
        },
{
    let key_type = match json_field(json, "Type") {
        Some(Some(name)) => name,
        Some(None) => String::from_str("secp256k1"),
        None => {
            return Err(KeyTextError::InvalidJson);
        },
    };
    let text = match json_field(json, "PrivateKey") {
        Some(Some(text)) => text,
        Some(None) => {
            return Err(KeyTextError::MissingPrivateKey);
        },
        None => {
            return Err(KeyTextError::InvalidJson);
        },
    };
    match base64_decode(text.as_str()) {
        Some(private_key) => Ok(ExportedKey { key_type, private_key }),
        None => Err(KeyTextError::InvalidBase64),
    }
}

/// Whether `s` starts with the hex of `{"`.
fn starts_with_json_prefix(s: &str) -> (r: bool)
    ensures
        r == has_json_prefix(s@),
{
    let v = chars_of(s);
    v.len() >= 4 && v[0] == '7' && v[1] == 'b' && v[2] == '2' && v[3] == '2'
}

/// The key that a text holds, in any of the forms in which keys are
/// exported.
pub fn read_exported_key(text: &str, format: &str) -> (r: Result<ExportedKey, KeyTextError>)
    ensures
        match r {
            Ok(key) => read_exported_key_spec(text@, format@) == Ok::<
                ExportedKeyView,
                KeyTextError,
            >(key@),
            Err(e) => read_exported_key_spec(text@, format@) == Err::<
                ExportedKeyView,
                KeyTextError,
            >(e),
        },
{
    if starts_with_json_prefix(text) {
        let json_bytes = match read_key_hex(text) {
            Ok(bytes) => bytes,
            Err(e) => {
                return Err(e);
            },
        };
        match utf8_text(json_bytes) {
            Some(json) => read_key_json(json.as_str()),
            None => Err(KeyTextError::InvalidUtf8),
        }
    } else if eq_str(format, "json") {
        read_key_json(text)
    } else {
        match read_key_hex(text) {
            Ok(private_key) => Ok(
                ExportedKey { key_type: String::from_str("secp256k1"), private_key },
            ),
            Err(e) => Err(e),
        }
    }
}

/// The scheme under which an imported key is used: BLS where its type is
/// named `bls`, secp256k1 for any other name.
pub fn imported_key_type(name: &str) -> (r: KeyType)
    ensures
        r == (if name@ == "bls"@ {
            KeyType::BLS
        } else {
            KeyType::Secp256k1
        }),
{
    if eq_str(name, "bls") {
        KeyType::BLS
    } else {
        KeyType::Secp256k1
    }
}

} // verus!
