use lotus_sign::chain::address::{
    base32_decode, base32_encode, base32_encode_with_checksum, Address, AddressFormatError,
    Protocol,
};

fn public_key() -> Vec<u8> {
    hex::decode(
        "0484bf7562262bbd6940085748f3be6afa52ae317155181ece31b66351ccffa4b0\
         8cc43d63b2859d469fee15f31c9edb5324266e6fd0407e87382d60fc4511acd8",
    )
    .unwrap()
}

#[test]
fn secp256k1_address_is_digest_of_public_key() {
    let a = Address::new_secp256k1(&public_key()).unwrap();
    assert_eq!(a.protocol, Protocol::Secp256k1);
    assert_eq!(hex::encode(&a.payload), "87165871a331e967c6d2dbec2acfee0b08dc5edb");
}

#[test]
fn secp256k1_address_text() {
    let a = Address::new_secp256k1(&public_key()).unwrap();
    assert_eq!(a.to_string(), "f1q4lfq4ndghuwprws3pwcvt7obmenyxw3sig2wca");
}

#[test]
fn bls_address_holds_the_key() {
    let key: Vec<u8> = (0u8..48).collect();
    let a = Address::new_bls(&key).unwrap();
    assert_eq!(a.protocol, Protocol::BLS);
    assert_eq!(a.payload, key);
    assert!(a.to_string().starts_with("f3"));
}

#[test]
fn text_reads_back_for_every_protocol() {
    let protocols = [Protocol::ID, Protocol::Secp256k1, Protocol::Actor, Protocol::BLS];
    for protocol in protocols {
        for len in [0usize, 1, 2, 3, 4, 5, 19, 20, 21, 32, 48, 49] {
            let payload: Vec<u8> = (0..len).map(|i| (i * 37 + 11) as u8).collect();
            let a = Address { protocol, payload };
            let text = a.to_string();
            assert_eq!(Address::from_string(&text), Ok(a));
        }
    }
}

#[test]
fn test_network_letter_reads_as_the_same_address() {
    let main = Address::from_string("f1q4lfq4ndghuwprws3pwcvt7obmenyxw3sig2wca").unwrap();
    let test = Address::from_string("t1q4lfq4ndghuwprws3pwcvt7obmenyxw3sig2wca").unwrap();
    assert_eq!(main, test);
    assert_eq!(hex::encode(&main.payload), "87165871a331e967c6d2dbec2acfee0b08dc5edb");
}

#[test]
fn checksum_is_not_verified() {
    let good = "f1q4lfq4ndghuwprws3pwcvt7obmenyxw3sig2wca";
    // the last character carries the two lowest bits of the checksum
    let mut tampered = String::from(&good[..good.len() - 1]);
    tampered.push('i');
    let a = Address::from_string(good).unwrap();
    let b = Address::from_string(&tampered).unwrap();
    assert_eq!(a, b);
    assert_eq!(base32_decode(&good[2..]), base32_decode(&tampered[2..]));
    assert_ne!(
        lotus_sign::chain::base32::decode(&good[2..]),
        lotus_sign::chain::base32::decode(&tampered[2..])
    );
}

#[test]
fn any_four_bytes_stand_for_the_checksum() {
    let payload: Vec<u8> = (0u8..20).collect();
    let a = Address { protocol: Protocol::Secp256k1, payload: payload.clone() };
    let mut with_zero_tail = payload.clone();
    with_zero_tail.extend_from_slice(&[0, 0, 0, 0]);
    let text = format!("f1{}", lotus_sign::chain::cbor::base32_encode(&with_zero_tail));
    assert_ne!(text, a.to_string());
    assert_eq!(Address::from_string(&text), Ok(a));
}

#[test]
fn short_text_is_refused() {
    assert_eq!(Address::from_string(""), Err(AddressFormatError::TooShort));
    assert_eq!(Address::from_string("f1"), Err(AddressFormatError::TooShort));
}

#[test]
fn unknown_network_is_refused() {
    assert_eq!(
        Address::from_string("x1q4lfq4ndghuwprws3pwcvt7obmenyxw3sig2wca"),
        Err(AddressFormatError::UnknownNetwork)
    );
}

#[test]
fn unknown_protocol_is_refused() {
    assert_eq!(Address::from_string("f4aaaa"), Err(AddressFormatError::UnknownProtocol));
    assert_eq!(Address::from_string("fxaaaa"), Err(AddressFormatError::UnknownProtocol));
}

#[test]
fn character_outside_the_alphabet_is_refused() {
    assert_eq!(Address::from_string("f1abc1"), Err(AddressFormatError::InvalidCharacter));
    assert_eq!(Address::from_string("f1ABCD"), Err(AddressFormatError::InvalidCharacter));
    assert_eq!(Address::from_string("f1ab\u{e9}"), Err(AddressFormatError::InvalidCharacter));
}

#[test]
fn short_body_keeps_its_bytes() {
    let a = Address::from_string("f05").unwrap();
    assert_eq!(a.protocol, Protocol::ID);
    assert_eq!(a.payload, Vec::<u8>::new());
    let b = Address::from_string("f0aeaq").unwrap();
    assert_eq!(b.payload, vec![1, 1]);
}

#[test]
fn base32_with_checksum_matches_the_text() {
    let payload = hex::decode("87165871a331e967c6d2dbec2acfee0b08dc5edb").unwrap();
    assert_eq!(
        base32_encode_with_checksum(1, &payload),
        "q4lfq4ndghuwprws3pwcvt7obmenyxw3sig2wca"
    );
}

#[test]
fn base32_with_own_checksum() {
    // digest of "abc" with four bytes of output: 63906248
    assert_eq!(base32_encode(b"abc"), "mfrggy4qmjea");
}

#[test]
fn base32_decode_drops_four_bytes() {
    assert_eq!(base32_decode("mfrggy4qmjea"), Ok(b"abc".to_vec()));
    assert_eq!(base32_decode("mfrgg"), Ok(b"abc".to_vec()));
    assert_eq!(base32_decode("mfrgg!"), Err(AddressFormatError::InvalidCharacter));
}

#[test]
fn strict_reading_accepts_the_text_of_an_address() {
    let protocols = [Protocol::ID, Protocol::Secp256k1, Protocol::Actor, Protocol::BLS];
    for protocol in protocols {
        for len in [0usize, 1, 4, 20, 48] {
            let payload: Vec<u8> = (0..len).map(|i| (i * 13 + 5) as u8).collect();
            let a = Address { protocol, payload };
            assert_eq!(Address::from_string_strict(&a.to_string()), Ok(a));
        }
    }
}

#[test]
fn strict_reading_refuses_a_wrong_checksum() {
    let good = "f1q4lfq4ndghuwprws3pwcvt7obmenyxw3sig2wca";
    assert!(Address::from_string_strict(good).is_ok());
    let mut tampered = String::from(&good[..good.len() - 1]);
    tampered.push('i');
    assert_eq!(
        Address::from_string_strict(&tampered),
        Err(AddressFormatError::ChecksumMismatch)
    );
    assert!(Address::from_string(&tampered).is_ok());
    // the same payload under another protocol digit has another checksum
    let other = format!("f2{}", &good[2..]);
    assert_eq!(Address::from_string_strict(&other), Err(AddressFormatError::ChecksumMismatch));
    assert_eq!(Address::from_string_strict("f05"), Err(AddressFormatError::ChecksumMismatch));
}

#[test]
fn strict_reading_reports_the_other_errors_first() {
    assert_eq!(Address::from_string_strict("f"), Err(AddressFormatError::TooShort));
    assert_eq!(Address::from_string_strict("z1aaaa"), Err(AddressFormatError::UnknownNetwork));
    assert_eq!(Address::from_string_strict("f7aaaa"), Err(AddressFormatError::UnknownProtocol));
    assert_eq!(Address::from_string_strict("f1aa0a"), Err(AddressFormatError::InvalidCharacter));
}
