use trading_engine::decimal::{parse_decimal, ParseError};
use trading_engine::price::{Percent, Price, PRICE_DECIMALS, PRICE_SCALE};

#[test]
fn whole_numbers_are_scaled() {
    assert_eq!(parse_decimal(b"0", 8), Ok(0));
    assert_eq!(parse_decimal(b"1", 8), Ok(100_000_000));
    assert_eq!(parse_decimal(b"100", 8), Ok(10_000_000_000));
    assert_eq!(parse_decimal(b"100", 0), Ok(100));
    assert_eq!(parse_decimal(b"7", 2), Ok(700));
}

#[test]
fn fractions_are_padded_to_the_scale() {
    assert_eq!(parse_decimal(b"98.01", 8), Ok(9_801_000_000));
    assert_eq!(parse_decimal(b"98.01", 2), Ok(9801));
    assert_eq!(parse_decimal(b"0.00000001", 8), Ok(1));
    assert_eq!(parse_decimal(b"67250.12345678", 8), Ok(6_725_012_345_678));
    assert_eq!(parse_decimal(b"2.5", 2), Ok(250));
    assert_eq!(parse_decimal(b"1.50", 2), Ok(150));
}

#[test]
fn either_digit_run_may_be_missing() {
    assert_eq!(parse_decimal(b"5.", 2), Ok(500));
    assert_eq!(parse_decimal(b".5", 2), Ok(50));
    assert_eq!(parse_decimal(b"5.", 0), Ok(5));
}

#[test]
fn leading_and_trailing_zeros_are_harmless() {
    assert_eq!(parse_decimal(b"000000000000000000000000000000000042", 2), Ok(4200));
    assert_eq!(parse_decimal(b"0.10", 2), Ok(10));
    assert_eq!(parse_decimal(b"00.00", 2), Ok(0));
    assert_eq!(parse_decimal(b"0", 255), Ok(0));
    assert_eq!(parse_decimal(b"0.000", 255), Ok(0));
}

#[test]
fn empty_text_is_reported() {
    assert_eq!(parse_decimal(b"", 8), Err(ParseError::Empty));
}

#[test]
fn negative_numbers_are_reported() {
    assert_eq!(parse_decimal(b"-1", 8), Err(ParseError::Negative));
    assert_eq!(parse_decimal(b"-0.5", 8), Err(ParseError::Negative));
    assert_eq!(parse_decimal(b"-0", 8), Err(ParseError::Negative));
    assert_eq!(parse_decimal(b"-.5", 8), Err(ParseError::Negative));
    assert_eq!(parse_decimal(b"-1.123456789", 8), Err(ParseError::Negative));
}

#[test]
fn text_that_is_no_numeral_is_reported() {
    for text in [
        ".", "-", "-.", "--1", "-+1", "+1", "1e5", "1E5", "abc", "1.2.3", "1,5", " 1", "1 ", "1_000",
        "inf", "NaN", "infinity", "0x10", "1-", "12a", "a12", "1..", "..1", "\u{661}",
    ] {
        assert_eq!(parse_decimal(text.as_bytes(), 8), Err(ParseError::Malformed), "{:?}", text);
    }
}

#[test]
fn too_many_fraction_digits_are_reported() {
    assert_eq!(parse_decimal(b"1.123456789", 8), Err(ParseError::TooPrecise));
    assert_eq!(parse_decimal(b"1.000000000", 8), Err(ParseError::TooPrecise));
    assert_eq!(parse_decimal(b"1.5", 0), Err(ParseError::TooPrecise));
    assert_eq!(parse_decimal(b"2.005", 2), Err(ParseError::TooPrecise));
    assert_eq!(parse_decimal(b"99999999999999999999999.123", 2), Err(ParseError::TooPrecise));
}

#[test]
fn numbers_beyond_the_range_are_reported() {
    assert_eq!(parse_decimal(b"18446744073709551615", 0), Ok(u64::MAX));
    assert_eq!(parse_decimal(b"18446744073709551616", 0), Err(ParseError::OutOfRange));
    assert_eq!(parse_decimal(b"184467440737.09551615", 8), Ok(u64::MAX));
    assert_eq!(parse_decimal(b"184467440737.09551616", 8), Err(ParseError::OutOfRange));
    assert_eq!(parse_decimal(b"184467440738", 8), Err(ParseError::OutOfRange));
    assert_eq!(parse_decimal(b"99999999999999999999999999999", 8), Err(ParseError::OutOfRange));
    assert_eq!(parse_decimal(b"1", 20), Err(ParseError::OutOfRange));
    assert_eq!(parse_decimal(b"1", 19), Ok(10_000_000_000_000_000_000));
    assert_eq!(parse_decimal(b"2", 19), Err(ParseError::OutOfRange));
    assert_eq!(parse_decimal(b"0.1", 255), Err(ParseError::OutOfRange));
}

#[test]
fn price_parse_counts_in_price_units() {
    assert_eq!(PRICE_DECIMALS, 8);
    assert_eq!(PRICE_SCALE, 100_000_000);
    assert_eq!(Price::parse("100"), Ok(Price::from_units(100 * PRICE_SCALE)));
    assert_eq!(Price::parse("67250.50"), Ok(Price::from_units(6_725_050_000_000)));
    assert_eq!(Price::parse("0.00000001"), Ok(Price::from_units(1)));
    assert_eq!(Price::parse("0"), Ok(Price::from_units(0)));
    assert_eq!(Price::parse("184467440737.09551615"), Ok(Price::from_units(u64::MAX)));
}

#[test]
fn price_parse_reports_every_kind_of_error() {
    assert_eq!(Price::parse(""), Err(ParseError::Empty));
    assert_eq!(Price::parse("-5"), Err(ParseError::Negative));
    assert_eq!(Price::parse("five"), Err(ParseError::Malformed));
    assert_eq!(Price::parse("NaN"), Err(ParseError::Malformed));
    assert_eq!(Price::parse("inf"), Err(ParseError::Malformed));
    assert_eq!(Price::parse("1e3"), Err(ParseError::Malformed));
    assert_eq!(Price::parse("1.000000001"), Err(ParseError::TooPrecise));
    assert_eq!(Price::parse("184467440737.09551616"), Err(ParseError::OutOfRange));
}

#[test]
fn percent_parse_counts_in_basis_points() {
    assert_eq!(Percent::parse("2.00"), Ok(Percent::from_basis_points(200)));
    assert_eq!(Percent::parse("3.0"), Ok(Percent::from_basis_points(300)));
    assert_eq!(Percent::parse("3"), Ok(Percent::from_basis_points(300)));
    assert_eq!(Percent::parse("0.01"), Ok(Percent::from_basis_points(1)));
    assert_eq!(Percent::parse("0"), Ok(Percent::from_basis_points(0)));
    assert_eq!(Percent::parse("100"), Ok(Percent::from_basis_points(10_000)));
    assert_eq!(Percent::parse("42949672.95"), Ok(Percent::from_basis_points(u32::MAX)));
}

#[test]
fn percent_parse_reports_every_kind_of_error() {
    assert_eq!(Percent::parse(""), Err(ParseError::Empty));
    assert_eq!(Percent::parse("-2"), Err(ParseError::Negative));
    assert_eq!(Percent::parse("2%"), Err(ParseError::Malformed));
    assert_eq!(Percent::parse("2.005"), Err(ParseError::TooPrecise));
    assert_eq!(Percent::parse("42949672.96"), Err(ParseError::OutOfRange));
    assert_eq!(Percent::parse("99999999999999999999999"), Err(ParseError::OutOfRange));
}
