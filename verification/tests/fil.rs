use lotus_sign::chain::bigint::BigInt;
use lotus_sign::chain::fil::{
    format_fil, parse_decimal, parse_fil, split_number_unit, AmountFormatError,
    FILECOIN_PRECISION,
};

fn atto(text: &str) -> BigInt {
    BigInt::parse(text).unwrap()
}

#[test]
fn whole_amounts_have_no_decimal_point() {
    assert_eq!(format_fil(&atto("0")), "0 FIL");
    assert_eq!(format_fil(&atto("1000000000000000000")), "1 FIL");
    assert_eq!(format_fil(&atto("25000000000000000000")), "25 FIL");
    assert_eq!(format_fil(&BigInt::from_u64(FILECOIN_PRECISION)), "1 FIL");
}

#[test]
fn fractions_lose_their_trailing_zeros() {
    assert_eq!(format_fil(&atto("1500000000000000000")), "1.5 FIL");
    assert_eq!(format_fil(&atto("100000000000000000")), "0.1 FIL");
    assert_eq!(format_fil(&atto("1")), "0.000000000000000001 FIL");
    assert_eq!(format_fil(&atto("10")), "0.00000000000000001 FIL");
    assert_eq!(format_fil(&atto("999999999999999999")), "0.999999999999999999 FIL");
    assert_eq!(format_fil(&atto("1000000000000000001")), "1.000000000000000001 FIL");
    assert_eq!(
        format_fil(&atto("123456789012345678901234567890")),
        "123456789012.34567890123456789 FIL"
    );
}

#[test]
fn amounts_below_zero_show_the_sign_in_the_whole_part() {
    assert_eq!(format_fil(&atto("-1000000000000000000")), "-1 FIL");
    assert_eq!(format_fil(&atto("-1500000000000000000")), "-1.5 FIL");
    assert_eq!(format_fil(&atto("-500000000000000000")), "0.5 FIL");
}

#[test]
fn amounts_of_fil_are_scaled() {
    assert_eq!(parse_fil("1 FIL"), Ok(atto("1000000000000000000")));
    assert_eq!(parse_fil("1"), Ok(atto("1000000000000000000")));
    assert_eq!(parse_fil("0.1 FIL"), Ok(atto("100000000000000000")));
    assert_eq!(parse_fil("1.5"), Ok(atto("1500000000000000000")));
    assert_eq!(parse_fil("-1.5 FIL"), Ok(atto("-1500000000000000000")));
    assert_eq!(parse_fil("0.000000000000000001 FIL"), Ok(atto("1")));
    assert_eq!(parse_fil(".5"), Ok(atto("500000000000000000")));
    assert_eq!(parse_fil("5."), Ok(atto("5000000000000000000")));
    assert_eq!(parse_fil("-7"), Ok(atto("-7000000000000000000")));
    assert_eq!(parse_fil("0"), Ok(BigInt::zero()));
}

#[test]
fn places_past_the_eighteenth_are_dropped() {
    assert_eq!(parse_fil("1.0000000000000000019 FIL"), Ok(atto("1000000000000000001")));
    assert_eq!(parse_fil("0.1234567890123456789999"), Ok(atto("123456789012345678")));
}

#[test]
fn unit_is_read_in_any_case_and_spacing() {
    assert_eq!(parse_fil("2 fil"), Ok(atto("2000000000000000000")));
    assert_eq!(parse_fil("2FIL"), Ok(atto("2000000000000000000")));
    assert_eq!(parse_fil("  2   Fil  "), Ok(atto("2000000000000000000")));
    assert_eq!(parse_fil("\t2\u{a0}FIL\n"), Ok(atto("2000000000000000000")));
    assert_eq!(parse_fil("100 attoFIL"), Ok(atto("100")));
    assert_eq!(parse_fil("100 ATTOFIL"), Ok(atto("100")));
    assert_eq!(parse_fil("100 aFIL"), Ok(atto("100")));
    assert_eq!(parse_fil("100afil"), Ok(atto("100")));
    assert_eq!(parse_fil("-3 attofil"), Ok(atto("-3")));
}

#[test]
fn unknown_unit_is_refused() {
    assert_eq!(parse_fil("1 BTC"), Err(AmountFormatError::UnknownUnit));
    assert_eq!(parse_fil("1 FILS"), Err(AmountFormatError::UnknownUnit));
    assert_eq!(parse_fil("abc"), Err(AmountFormatError::UnknownUnit));
    assert_eq!(parse_fil("1_000"), Err(AmountFormatError::UnknownUnit));
    assert_eq!(parse_fil("+1"), Err(AmountFormatError::UnknownUnit));
    assert_eq!(parse_fil("1 f\u{130}l"), Err(AmountFormatError::UnknownUnit));
}

#[test]
fn decimal_point_in_attofil_is_refused() {
    assert_eq!(parse_fil("1.5 attoFIL"), Err(AmountFormatError::FractionalAttoFil));
    assert_eq!(parse_fil("1.0 aFIL"), Err(AmountFormatError::FractionalAttoFil));
    assert_eq!(parse_fil("1. attofil"), Err(AmountFormatError::FractionalAttoFil));
}

#[test]
fn malformed_number_is_refused() {
    assert_eq!(parse_fil(""), Err(AmountFormatError::MalformedNumber));
    assert_eq!(parse_fil("   "), Err(AmountFormatError::MalformedNumber));
    assert_eq!(parse_fil("FIL"), Err(AmountFormatError::MalformedNumber));
    assert_eq!(parse_fil("-"), Err(AmountFormatError::MalformedNumber));
    assert_eq!(parse_fil("1-2"), Err(AmountFormatError::MalformedNumber));
    assert_eq!(parse_fil("--1"), Err(AmountFormatError::MalformedNumber));
    assert_eq!(parse_fil("1.2.3"), Err(AmountFormatError::MalformedNumber));
    assert_eq!(parse_fil("1.2.3 attoFIL"), Err(AmountFormatError::MalformedNumber));
    assert_eq!(parse_fil("1.-5"), Err(AmountFormatError::MalformedNumber));
    assert_eq!(parse_fil("-.-"), Err(AmountFormatError::MalformedNumber));
}

#[test]
fn number_and_unit_are_split_at_the_first_other_character() {
    assert_eq!(split_number_unit("1.5 FIL"), ("1.5", "FIL"));
    assert_eq!(split_number_unit("12abc"), ("12", "abc"));
    assert_eq!(split_number_unit("-0.25"), ("-0.25", ""));
    assert_eq!(split_number_unit("  1"), ("", "1"));
    assert_eq!(split_number_unit("3   attoFIL  "), ("3", "attoFIL"));
    assert_eq!(split_number_unit(""), ("", ""));
}

#[test]
fn decimal_is_padded_to_eighteen_places() {
    assert_eq!(parse_decimal("1.5", false), Ok(atto("1500000000000000000")));
    assert_eq!(parse_decimal("-0.25", false), Ok(atto("-250000000000000000")));
    assert_eq!(parse_decimal("-.5", false), Ok(atto("-500000000000000000")));
    assert_eq!(parse_decimal(".", false), Ok(BigInt::zero()));
    assert_eq!(parse_decimal("15", false), Err(AmountFormatError::MalformedNumber));
    assert_eq!(parse_decimal("1.5.", false), Err(AmountFormatError::MalformedNumber));
    assert_eq!(parse_decimal("1.x", false), Err(AmountFormatError::MalformedNumber));
    assert_eq!(parse_decimal("1.5", true), Err(AmountFormatError::FractionalAttoFil));
}

#[test]
fn text_of_an_amount_reads_back() {
    for text in [
        "0",
        "1",
        "9",
        "10",
        "999999999999999999",
        "1000000000000000000",
        "1000000000000000001",
        "1500000000000000000",
        "100000000000000000",
        "120000000000000000000000",
        "123456789012345678901234567890",
        "340282366920938463463374607431768211455",
    ] {
        let n = atto(text);
        assert_eq!(parse_fil(&format_fil(&n)), Ok(n));
    }
}
