use lotus_sign::chain::address::{Address, Protocol};
use lotus_sign::wallet::key::{KeyType, PrivateKey};
use lotus_sign::wallet::signer::SigningError;

#[test]
fn key_type_names() {
    assert_eq!(KeyType::Secp256k1.as_str(), "secp256k1");
    assert_eq!(KeyType::BLS.as_str(), "bls");
}

#[test]
fn key_type_is_read_in_any_case() {
    assert_eq!(KeyType::from_str("secp256k1").unwrap(), KeyType::Secp256k1);
    assert_eq!(KeyType::from_str("SECP256K1").unwrap(), KeyType::Secp256k1);
    assert_eq!(KeyType::from_str("Secp256k1").unwrap(), KeyType::Secp256k1);
    assert_eq!(KeyType::from_str("bls").unwrap(), KeyType::BLS);
    assert_eq!(KeyType::from_str("BLS").unwrap(), KeyType::BLS);
    assert_eq!(KeyType::from_str("bLs").unwrap(), KeyType::BLS);
}

#[test]
fn unknown_key_type_is_refused() {
    for name in ["", "ed25519", "bls ", " bls", "secp256k", "secp256k11"] {
        assert!(matches!(KeyType::from_str(name), Err(SigningError::UnknownKeyType)));
    }
}

#[test]
fn secp256k1_public_key_of_known_private_key() {
    let private: Vec<u8> = (1u8..=32).collect();
    let public = PrivateKey::derive_public_key(KeyType::Secp256k1, &private).unwrap();
    assert_eq!(
        hex::encode(public),
        "0484bf7562262bbd6940085748f3be6afa52ae317155181ece31b66351ccffa4b0\
         8cc43d63b2859d469fee15f31c9edb5324266e6fd0407e87382d60fc4511acd8"
    );
}

#[test]
fn secp256k1_address_of_known_private_key() {
    let private: Vec<u8> = (1u8..=32).collect();
    let a = PrivateKey::derive_address(KeyType::Secp256k1, &private).unwrap();
    assert_eq!(a.to_string(), "f1q4lfq4ndghuwprws3pwcvt7obmenyxw3sig2wca");
}

#[test]
fn bls_public_key_comes_from_the_reversed_key() {
    let mut private = vec![0u8; 32];
    private[0] = 7;
    private[1] = 3;
    let public = PrivateKey::derive_public_key(KeyType::BLS, &private).unwrap();
    assert_eq!(public.len(), 48);
    let mut big_endian = private.clone();
    big_endian.reverse();
    let direct = blst::min_pk::SecretKey::from_bytes(&big_endian).unwrap().sk_to_pk();
    assert_eq!(public, direct.to_bytes().to_vec());
    let a = PrivateKey::derive_address(KeyType::BLS, &private).unwrap();
    assert_eq!(a, Address { protocol: Protocol::BLS, payload: public });
}

#[test]
fn deriving_from_a_bad_key_fails() {
    assert!(matches!(
        PrivateKey::derive_public_key(KeyType::Secp256k1, &[0u8; 32]),
        Err(SigningError::CryptoFailure(_))
    ));
    assert!(matches!(
        PrivateKey::derive_public_key(KeyType::Secp256k1, &[1u8; 5]),
        Err(SigningError::CryptoFailure(_))
    ));
    assert!(matches!(
        PrivateKey::derive_public_key(KeyType::BLS, &[1u8; 5]),
        Err(SigningError::InvalidKeyLength)
    ));
    assert!(matches!(
        PrivateKey::derive_public_key(KeyType::BLS, &[0u8; 32]),
        Err(SigningError::CryptoFailure(_))
    ));
}

#[test]
fn generated_secp256k1_key_is_consistent() {
    let key = PrivateKey::generate(KeyType::Secp256k1).unwrap();
    assert_eq!(key.key_type, KeyType::Secp256k1);
    assert_eq!(key.private_key.len(), 32);
    assert_eq!(key.public_key.len(), 65);
    assert_eq!(key.public_key[0], 4);
    let public = PrivateKey::derive_public_key(KeyType::Secp256k1, &key.private_key).unwrap();
    assert_eq!(public, key.public_key);
    let other = PrivateKey::generate(KeyType::Secp256k1).unwrap();
    assert_ne!(other.private_key, key.private_key);
}

#[test]
fn generated_bls_key_is_consistent() {
    let key = PrivateKey::generate(KeyType::BLS).unwrap();
    assert_eq!(key.key_type, KeyType::BLS);
    assert_eq!(key.private_key.len(), 32);
    assert_eq!(key.public_key.len(), 48);
    let public = PrivateKey::derive_public_key(KeyType::BLS, &key.private_key).unwrap();
    assert_eq!(public, key.public_key);
    let other = PrivateKey::generate(KeyType::BLS).unwrap();
    assert_ne!(other.private_key, key.private_key);
}

#[test]
fn bls_key_from_a_known_seed() {
    let seed: Vec<u8> = (100u8..132).collect();
    let key = PrivateKey::bls_from_seed(&seed).unwrap();
    let direct = blst::min_pk::SecretKey::key_gen(&seed, &[]).unwrap();
    let mut stored = direct.to_bytes().to_vec();
    assert_ne!(stored, seed);
    stored.reverse();
    assert_eq!(key.key_type, KeyType::BLS);
    assert_eq!(key.private_key, stored);
    assert_eq!(key.public_key, direct.sk_to_pk().to_bytes().to_vec());
}

#[test]
fn short_seed_is_refused() {
    assert!(matches!(PrivateKey::bls_from_seed(&[1u8; 31]), Err(SigningError::CryptoFailure(_))));
}

#[test]
fn failure_carries_the_text_of_the_scheme() {
    match PrivateKey::derive_public_key(KeyType::Secp256k1, &[0u8; 32]) {
        Err(SigningError::CryptoFailure(text)) => {
            assert_eq!(text, "malformed or out-of-range secret key")
        }
        other => panic!("unexpected: {:?}", other),
    }
    match PrivateKey::derive_public_key(KeyType::BLS, &[0u8; 32]) {
        Err(SigningError::CryptoFailure(text)) => assert_eq!(text, "BLST_BAD_ENCODING"),
        other => panic!("unexpected: {:?}", other),
    }
}
