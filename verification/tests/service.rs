use lotus_sign::chain::address::{Address, AddressFormatError, Protocol};
use lotus_sign::chain::bigint::BigInt;
use lotus_sign::service::{
    actor_message, build_message, given_nonce, needs_gas_estimate, sign_message,
    transfer_message, ActorCall,
};
use lotus_sign::wallet::signer::{sign, SigningError, StoredKey};

const FROM: &str = "f1q4lfq4ndghuwprws3pwcvt7obmenyxw3sig2wca";
const TO: &str = "f1i5s7rws5jzjhp66vbupiuhv7bzs2hkbldtpdfpy";

#[test]
fn nonce_is_used_where_given_and_not_zero() {
    assert_eq!(given_nonce(None), None);
    assert_eq!(given_nonce(Some(0)), None);
    assert_eq!(given_nonce(Some(1)), Some(1));
    assert_eq!(given_nonce(Some(u64::MAX)), Some(u64::MAX));
}

#[test]
fn transfer_carries_the_chosen_gas() {
    let m = transfer_message(FROM, TO, "100000000000000000", "5", "7", 1000, 0, 3).unwrap();
    assert_eq!(m.version, 0);
    assert_eq!(m.to, Address::from_string(TO).unwrap());
    assert_eq!(m.from, Address::from_string(FROM).unwrap());
    assert_eq!(m.nonce, 3);
    assert_eq!(m.value.to_string(), "100000000000000000");
    assert_eq!(m.gas_limit, 1000);
    assert_eq!(m.gas_fee_cap.to_string(), "7");
    assert_eq!(m.gas_premium.to_string(), "5");
    assert_eq!(m.method, 0);
    assert!(m.params.is_empty());
    assert!(!needs_gas_estimate(&m));
}

#[test]
fn amount_that_is_no_decimal_text_counts_as_zero() {
    let m = transfer_message(FROM, TO, "0.1", "x", "", 0, 0, 1).unwrap();
    assert_eq!(m.value, BigInt::zero());
    assert_eq!(m.gas_fee_cap, BigInt::zero());
    assert_eq!(m.gas_premium, BigInt::zero());
    assert!(needs_gas_estimate(&m));
}

#[test]
fn bad_recipient_is_reported_before_bad_sender() {
    assert_eq!(
        transfer_message("x", "f9aaaa", "1", "0", "0", 0, 0, 1).err(),
        Some(AddressFormatError::UnknownProtocol)
    );
    assert_eq!(
        transfer_message("x", TO, "1", "0", "0", 0, 0, 1).err(),
        Some(AddressFormatError::TooShort)
    );
    assert_eq!(
        build_message("q1aaaa", TO, 0, "1", vec![], 1).err(),
        Some(AddressFormatError::UnknownNetwork)
    );
    assert_eq!(
        build_message(FROM, "f1a!aa", 0, "1", vec![], 1).err(),
        Some(AddressFormatError::InvalidCharacter)
    );
}

#[test]
fn built_message_has_no_gas() {
    let m = build_message(FROM, TO, 16, "25", vec![1, 2, 3], 9).unwrap();
    assert_eq!(m.version, 0);
    assert_eq!(m.nonce, 9);
    assert_eq!(m.value.to_string(), "25");
    assert_eq!(m.gas_limit, 0);
    assert_eq!(m.gas_fee_cap, BigInt::zero());
    assert_eq!(m.gas_premium, BigInt::zero());
    assert_eq!(m.method, 16);
    assert_eq!(m.params, vec![1, 2, 3]);
}

#[test]
fn actor_calls_select_method_and_recipient() {
    let cases = [
        (ActorCall::MinerWithdraw, 16u64),
        (ActorCall::ChangeOwner, 23),
        (ActorCall::ProposeChangeWorker, 3),
        (ActorCall::ConfirmChangeWorker, 21),
    ];
    for (call, method) in cases {
        let m = actor_message(call, TO, FROM, vec![7], 4).unwrap();
        assert_eq!(m.method, method);
        assert_eq!(m.to, Address::from_string(TO).unwrap());
        assert_eq!(m.from, Address::from_string(FROM).unwrap());
        assert_eq!(m.value, BigInt::zero());
        assert_eq!(m.params, vec![7]);
        assert_eq!(m.nonce, 4);
        assert_eq!(m.gas_limit, 0);
    }
    let m = actor_message(ActorCall::MarketWithdraw, "ignored", FROM, vec![], 4).unwrap();
    assert_eq!(m.method, 2);
    assert_eq!(m.to, Address { protocol: Protocol::ID, payload: vec![] });
}

#[test]
fn signed_message_holds_the_message_and_its_signature() {
    let m = transfer_message(FROM, TO, "100000000000000000", "0", "0", 0, 0, 1).unwrap();
    let key = StoredKey { key_type: String::from("secp256k1"), private_key: (1u8..=32).collect() };
    let expected = sign(&m, Some(&key)).unwrap();
    let signed = sign_message(m.clone(), Some(&key)).unwrap();
    assert_eq!(signed.message.to, m.to);
    assert_eq!(signed.message.nonce, 1);
    assert_eq!(signed.signature.sig_type, 1);
    assert_eq!(signed.signature.data, expected.data);
    assert_eq!(
        hex::encode(&signed.signature.data),
        "64dca39ea2e770a950c29be4302560402912d9e1a9237ca6fbad9914a04dc58d\
         3e6e5fc90df5565ec85dcaee5beba72b80aba2b5a33c03c22baab7e157bacc8f01"
    );
    assert!(matches!(sign_message(m, None), Err(SigningError::KeyNotFound)));
}
