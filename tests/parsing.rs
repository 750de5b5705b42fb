use sistra::decimal::{format_units, parse_signed_units, parse_units};
use sistra::order::coin_fee_value;

#[test]
fn decimal_units_exact() {
    assert_eq!(parse_units("65432.1"), Some(6_543_210_000_000));
    assert_eq!(parse_units("0.00000001"), Some(1));
    assert_eq!(parse_units("12"), Some(1_200_000_000));
    assert_eq!(parse_units("007.50"), Some(750_000_000));
}

#[test]
fn decimal_extra_digits_round_down() {
    assert_eq!(parse_units("1.123456789"), Some(112_345_678));
    assert_eq!(parse_units("0.000000019999999999999999999"), Some(1));
}

#[test]
fn decimal_rejects_malformed() {
    assert_eq!(parse_units(""), None);
    assert_eq!(parse_units(".5"), None);
    assert_eq!(parse_units("5."), None);
    assert_eq!(parse_units("1.2.3"), None);
    assert_eq!(parse_units("1e5"), None);
    assert_eq!(parse_units("-1"), None);
    assert_eq!(parse_units("1.00000000x"), None);
}

#[test]
fn decimal_range_limit() {
    assert_eq!(parse_units("184467440737.09551615"), Some(u64::MAX));
    assert_eq!(parse_units("184467440737.09551616"), None);
    assert_eq!(parse_units("99999999999999999999999"), None);
}

#[test]
fn signed_decimal() {
    assert_eq!(parse_signed_units("-0.0008"), Some(-80_000));
    assert_eq!(parse_signed_units("0.0008"), Some(80_000));
    assert_eq!(parse_signed_units("-92233720368.54775808"), Some(i64::MIN));
    assert_eq!(parse_signed_units("92233720368.54775808"), None);
    assert_eq!(parse_signed_units("-"), None);
    assert_eq!(parse_signed_units("--1"), None);
}

#[test]
fn fee_worth_in_usd() {
    assert_eq!(coin_fee_value(100_000, 50_000 * 100_000_000), Some(50 * 100_000_000));
    assert_eq!(coin_fee_value(-1, 50_000_000), Some(-1));
    assert_eq!(coin_fee_value(i64::MAX, u64::MAX), None);
}

#[test]
fn format_units_text() {
    assert_eq!(format_units(0), "0.00000000");
    assert_eq!(format_units(1), "0.00000001");
    assert_eq!(format_units(123_456_789_000), "1234.56789000");
    assert_eq!(format_units(u64::MAX), "184467440737.09551615");
}

#[test]
fn format_then_parse_round_trip() {
    for v in [0u64, 1, 99_999_999, 100_000_000, 10_000_000_000, 987_654_321_012_345, u64::MAX] {
        assert_eq!(parse_units(&format_units(v)), Some(v));
    }
}
