use lotus_sign::crypto::{decrypt, derive_key, encrypt, frame, CryptoError};

#[test]
fn derived_key_is_the_digest_of_the_password() {
    assert_eq!(
        hex::encode(derive_key("")),
        "e3b0c44298fc1c149afbf4c8996fb92427ae41e4649b934ca495991b7852b855"
    );
    assert_eq!(
        hex::encode(derive_key("abc")),
        "ba7816bf8f01cfea414140de5dae2223b00361a396177a9cb410ff61f20015ad"
    );
}

#[test]
fn sealed_data_opens_under_the_same_key() {
    let key = derive_key("hunter2");
    let data = b"a private key".to_vec();
    let stored = encrypt(&data, &key).unwrap();
    assert_eq!(stored.len(), 12 + data.len() + 16);
    assert_ne!(&stored[12..12 + data.len()], &data[..]);
    assert_eq!(decrypt(&stored, &key), Ok(data));
}

#[test]
fn empty_data_seals_to_nonce_and_tag() {
    let key = derive_key("k");
    let stored = encrypt(&[], &key).unwrap();
    assert_eq!(stored.len(), 28);
    assert_eq!(decrypt(&stored, &key), Ok(vec![]));
}

#[test]
fn each_sealing_draws_its_own_nonce() {
    let key = derive_key("k");
    let a = encrypt(b"same", &key).unwrap();
    let b = encrypt(b"same", &key).unwrap();
    assert_ne!(a[..12], b[..12]);
    assert_ne!(a, b);
}

#[test]
fn opening_a_known_ciphertext() {
    // AES-256-GCM, key of 32 zero bytes, nonce of 12 zero bytes, empty
    // plaintext: the tag alone.
    let key = [0u8; 32];
    let mut stored = vec![0u8; 12];
    stored.extend_from_slice(&hex::decode("530f8afbc74536b9a963b4f1c4cb738b").unwrap());
    assert_eq!(decrypt(&stored, &key), Ok(vec![]));
    // The same key and nonce with sixteen zero bytes of plaintext.
    let mut stored = vec![0u8; 12];
    stored.extend_from_slice(
        &hex::decode("cea7403d4d606b6e074ec5d3baf39d18d0d1c8a799996bf0265b98b5d48ab919").unwrap(),
    );
    assert_eq!(decrypt(&stored, &key), Ok(vec![0u8; 16]));
}

#[test]
fn short_data_is_refused() {
    let key = derive_key("k");
    assert_eq!(decrypt(&[], &key), Err(CryptoError::DataTooShort));
    assert_eq!(decrypt(&[0u8; 11], &key), Err(CryptoError::DataTooShort));
    assert_eq!(decrypt(&[0u8; 12], &key), Err(CryptoError::DecryptionFailed));
}

#[test]
fn wrong_key_or_changed_data_is_refused() {
    let key = derive_key("right");
    let mut stored = encrypt(b"secret", &key).unwrap();
    assert_eq!(decrypt(&stored, &derive_key("wrong")), Err(CryptoError::DecryptionFailed));
    let last = stored.len() - 1;
    stored[last] ^= 1;
    assert_eq!(decrypt(&stored, &key), Err(CryptoError::DecryptionFailed));
}

#[test]
fn frame_puts_the_nonce_first() {
    assert_eq!(frame(&[1, 2], &[3, 4, 5]), vec![1, 2, 3, 4, 5]);
}
