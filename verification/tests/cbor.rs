use lotus_sign::chain::address::{Address, Protocol};
use lotus_sign::chain::bigint::BigInt;
use lotus_sign::chain::cbor::{
    base32_encode, compute_cid, compute_cid_bytes, multibase_encode, serialize_message,
    write_address, write_bigint, write_cbor_bytes, write_cbor_int, write_cbor_uint,
};
use lotus_sign::chain::message::Message;

fn unsigned(val: u64) -> String {
    let mut buf = Vec::new();
    write_cbor_uint(&mut buf, val);
    hex::encode(buf)
}

fn signed(val: i64) -> String {
    let mut buf = Vec::new();
    write_cbor_int(&mut buf, val);
    hex::encode(buf)
}

fn amount(text: &str) -> String {
    let mut buf = Vec::new();
    write_bigint(&mut buf, &BigInt::from_str(text)).unwrap();
    hex::encode(buf)
}

fn sample_message() -> Message {
    Message {
        version: 0,
        to: Address::from_string("f1i5s7rws5jzjhp66vbupiuhv7bzs2hkbldtpdfpy").unwrap(),
        from: Address::from_string("f1q4lfq4ndghuwprws3pwcvt7obmenyxw3sig2wca").unwrap(),
        nonce: 1,
        value: BigInt::from_str("100000000000000000"),
        gas_limit: 0,
        gas_fee_cap: BigInt::zero(),
        gas_premium: BigInt::zero(),
        method: 0,
        params: vec![],
    }
}

#[test]
fn unsigned_integers_take_the_shortest_form() {
    assert_eq!(unsigned(0), "00");
    assert_eq!(unsigned(23), "17");
    assert_eq!(unsigned(24), "1818");
    assert_eq!(unsigned(255), "18ff");
    assert_eq!(unsigned(256), "190100");
    assert_eq!(unsigned(500), "1901f4");
    assert_eq!(unsigned(65535), "19ffff");
    assert_eq!(unsigned(65536), "1a00010000");
    assert_eq!(unsigned(4294967295), "1affffffff");
    assert_eq!(unsigned(4294967296), "1b0000000100000000");
    assert_eq!(unsigned(u64::MAX), "1bffffffffffffffff");
}

#[test]
fn signed_integers_use_the_negative_family_below_zero() {
    assert_eq!(signed(0), "00");
    assert_eq!(signed(500), "1901f4");
    assert_eq!(signed(i64::MAX), "1b7fffffffffffffff");
    assert_eq!(signed(-1), "20");
    assert_eq!(signed(-24), "37");
    assert_eq!(signed(-25), "3818");
    assert_eq!(signed(-256), "38ff");
    assert_eq!(signed(-257), "390100");
    assert_eq!(signed(-65536), "39ffff");
    assert_eq!(signed(-65537), "3a00010000");
    assert_eq!(signed(-4294967296), "3affffffff");
    assert_eq!(signed(-4294967297), "3b0000000100000000");
    assert_eq!(signed(i64::MIN), "3b7fffffffffffffff");
}

#[test]
fn byte_strings_carry_their_length() {
    let mut buf = vec![0xaa];
    write_cbor_bytes(&mut buf, &[]).unwrap();
    assert_eq!(buf, vec![0xaa, 0x40]);
    for (len, head) in [(23usize, "57"), (24, "5818"), (255, "58ff"), (256, "590100"), (65535, "59ffff"), (65536, "5a00010000")] {
        let data = vec![7u8; len];
        let mut buf = Vec::new();
        write_cbor_bytes(&mut buf, &data).unwrap();
        assert_eq!(hex::encode(&buf[..buf.len() - len]), head);
        assert_eq!(&buf[buf.len() - len..], &data[..]);
    }
}

#[test]
fn zero_amount_is_an_empty_byte_string() {
    assert_eq!(amount("0"), "40");
    assert_eq!(amount("-0"), "40");
    let mut buf = Vec::new();
    write_bigint(&mut buf, &BigInt::zero()).unwrap();
    assert_eq!(buf, vec![0x40]);
}

#[test]
fn amount_is_sign_then_magnitude() {
    assert_eq!(amount("5"), "420005");
    assert_eq!(amount("-5"), "420105");
    assert_eq!(amount("255"), "4200ff");
    assert_eq!(amount("256"), "43000100");
    assert_eq!(amount("100000000000000000"), "4900016345785d8a0000");
    assert_eq!(amount("-100000000000000000"), "4901016345785d8a0000");
}

#[test]
fn address_is_protocol_byte_then_payload() {
    let a = Address { protocol: Protocol::BLS, payload: vec![9, 8, 7] };
    let mut buf = Vec::new();
    write_address(&mut buf, &a).unwrap();
    assert_eq!(buf, vec![0x44, 3, 9, 8, 7]);
    let id = Address { protocol: Protocol::ID, payload: vec![] };
    let mut buf = Vec::new();
    write_address(&mut buf, &id).unwrap();
    assert_eq!(buf, vec![0x41, 0]);
}

#[test]
fn message_encoding_matches_the_wire_form() {
    let bytes = serialize_message(&sample_message()).unwrap();
    assert_eq!(
        hex::encode(bytes),
        "8a0055014765f8da5d4e5277fbd50d1e8a1ebf0e65a3a82b550187165871a331e967c6d2dbec2acfee0b08dc5edb\
         014900016345785d8a00000040400040"
    );
}

#[test]
fn every_message_starts_with_the_array_marker() {
    let mut m = sample_message();
    assert_eq!(serialize_message(&m).unwrap()[0], 0x8a);
    m.version = u64::MAX;
    m.gas_limit = i64::MIN;
    m.value = BigInt::from_str("-1");
    m.params = vec![1; 300];
    m.to = Address { protocol: Protocol::ID, payload: vec![] };
    assert_eq!(serialize_message(&m).unwrap()[0], 0x8a);
}

#[test]
fn fields_are_written_in_order() {
    let m = Message {
        version: 1,
        to: Address { protocol: Protocol::ID, payload: vec![5] },
        from: Address { protocol: Protocol::Actor, payload: vec![6] },
        nonce: 2,
        value: BigInt::from_str("3"),
        gas_limit: -4,
        gas_fee_cap: BigInt::from_str("5"),
        gas_premium: BigInt::from_str("-6"),
        method: 7,
        params: vec![8, 9],
    };
    assert_eq!(
        hex::encode(serialize_message(&m).unwrap()),
        "8a01420005420206024200032342000542010607420809"
    );
}

#[test]
fn content_identifier_is_prefix_then_digest() {
    let bytes = serialize_message(&sample_message()).unwrap();
    let cid = compute_cid_bytes(&bytes);
    assert_eq!(cid.len(), 38);
    assert_eq!(
        hex::encode(&cid),
        "0171a0e40220104cb9f4dd6e170605644451b6b20eef3145ef7a0f20661f6e98c43ec3a0982c"
    );
}

#[test]
fn content_identifier_text() {
    let bytes = serialize_message(&sample_message()).unwrap();
    assert_eq!(
        compute_cid(&bytes),
        "bafy2bzaceaiezopu3vxbobqfmrcfdnvsb3xtcrpppihsazq7n2mmipwducmcy"
    );
}

#[test]
fn base32_matches_the_standard_vectors() {
    assert_eq!(base32_encode(b""), "");
    assert_eq!(base32_encode(b"f"), "my");
    assert_eq!(base32_encode(b"fo"), "mzxq");
    assert_eq!(base32_encode(b"foo"), "mzxw6");
    assert_eq!(base32_encode(b"foob"), "mzxw6yq");
    assert_eq!(base32_encode(b"fooba"), "mzxw6ytb");
    assert_eq!(base32_encode(b"foobar"), "mzxw6ytboi");
    assert_eq!(multibase_encode(b"foobar"), "bmzxw6ytboi");
}
