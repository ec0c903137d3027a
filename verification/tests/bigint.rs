use lotus_sign::chain::bigint::BigInt;

#[test]
fn zero_is_the_default() {
    assert_eq!(BigInt::default(), BigInt::zero());
    assert_eq!(BigInt::zero().to_string(), "0");
    assert!(BigInt::zero().is_zero());
    assert!(!BigInt::zero().is_negative());
    assert!(BigInt::zero().magnitude().is_empty());
}

#[test]
fn decimal_text_reads_and_writes() {
    for text in ["0", "1", "9", "10", "255", "256", "65536", "-1", "-256", "123456789012345678901234567890", "-98765432109876543210"] {
        assert_eq!(BigInt::from_str(text).to_string(), text);
    }
}

#[test]
fn sign_and_separators_are_read() {
    assert_eq!(BigInt::from_str("+42").to_string(), "42");
    assert_eq!(BigInt::from_str("1_000").to_string(), "1000");
    assert_eq!(BigInt::from_str("-0").to_string(), "0");
    assert_eq!(BigInt::from_str("007").to_string(), "7");
    assert!(!BigInt::from_str("-0").is_negative());
}

#[test]
fn malformed_text_reads_as_zero() {
    for text in ["", "abc", "1.5", "-", "+", "_1", "--1", "-+1", "+-1", "++1", "12a", " 1", "1 ", "\u{663}"] {
        assert_eq!(BigInt::from_str(text), BigInt::zero());
        assert!(BigInt::parse(text).is_none());
    }
}

#[test]
fn parse_gives_the_value() {
    assert_eq!(BigInt::parse("17"), Some(BigInt::from_u64(17)));
    assert_eq!(BigInt::parse("-17"), Some(BigInt::from_i64(-17)));
}

#[test]
fn magnitude_has_no_leading_zero() {
    assert_eq!(BigInt::from_str("1").magnitude(), &vec![1u8]);
    assert_eq!(BigInt::from_str("-256").magnitude(), &vec![1u8, 0]);
    assert!(BigInt::from_str("-256").is_negative());
    assert_eq!(BigInt::from_sign_magnitude(false, vec![0, 0, 1, 2]).magnitude(), &vec![1u8, 2]);
    assert_eq!(BigInt::from_sign_magnitude(true, vec![0, 0]), BigInt::zero());
}

#[test]
fn machine_integers_convert() {
    assert_eq!(BigInt::from_u64(0).to_string(), "0");
    assert_eq!(BigInt::from_u64(u64::MAX).to_string(), "18446744073709551615");
    assert_eq!(BigInt::from_i64(i64::MIN).to_string(), "-9223372036854775808");
    assert_eq!(BigInt::from_i64(i64::MAX).to_string(), "9223372036854775807");
    assert_eq!(BigInt::from_i64(-1).to_string(), "-1");
}

#[test]
fn product_follows_the_signs() {
    let a = BigInt::from_str("-12345678901234567890");
    let b = BigInt::from_str("1000000000000000000");
    assert_eq!(a.product(&b).to_string(), "-12345678901234567890000000000000000000");
    assert_eq!(a.product(&a).to_string(), "152415787532388367501905199875019052100");
    assert_eq!(a.product(&BigInt::zero()), BigInt::zero());
}

#[test]
fn division_rounds_toward_zero() {
    let seven = BigInt::from_i64(7);
    let minus_seven = BigInt::from_i64(-7);
    let two = BigInt::from_i64(2);
    let minus_two = BigInt::from_i64(-2);
    assert_eq!(seven.quotient(&two).to_string(), "3");
    assert_eq!(seven.remainder(&two).to_string(), "1");
    assert_eq!(minus_seven.quotient(&two).to_string(), "-3");
    assert_eq!(minus_seven.remainder(&two).to_string(), "-1");
    assert_eq!(seven.quotient(&minus_two).to_string(), "-3");
    assert_eq!(seven.remainder(&minus_two).to_string(), "1");
    assert_eq!(minus_seven.quotient(&minus_two).to_string(), "3");
    assert_eq!(minus_seven.remainder(&minus_two).to_string(), "-1");
    assert_eq!(BigInt::from_i64(1).quotient(&two), BigInt::zero());
    assert_eq!(BigInt::from_i64(-1).quotient(&two), BigInt::zero());
}

#[test]
fn clone_is_equal() {
    let a = BigInt::from_str("-340282366920938463463374607431768211456");
    assert_eq!(a.clone(), a);
    assert_ne!(a, BigInt::from_str("340282366920938463463374607431768211456"));
}
