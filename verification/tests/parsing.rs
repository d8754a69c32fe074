use trading::parse::is_decimal;
use trading::parse::parse_date;
use trading::parse::parse_i32;
use trading::parse::parse_u32;
use trading::parse::parse_u64;

#[test]
fn date_with_dashes() {
    assert_eq!(parse_date("2023-05-12"), Some(20230512));
}

#[test]
fn date_plain_digits() {
    assert_eq!(parse_date("20230512"), Some(20230512));
}

#[test]
fn date_rejects_letters_and_empty() {
    assert_eq!(parse_date("2023-05-1a"), None);
    assert_eq!(parse_date(""), None);
    assert_eq!(parse_date("---"), None);
}

#[test]
fn date_leading_zeros_and_overflow() {
    assert_eq!(parse_date("0000020230512"), Some(20230512));
    assert_eq!(parse_date("99999999999"), None);
    assert_eq!(parse_date("4294967295"), Some(u32::MAX));
    assert_eq!(parse_date("4294967296"), None);
}

#[test]
fn signed_field_parsing() {
    assert_eq!(parse_i32("0"), Some(0));
    assert_eq!(parse_i32("-12"), Some(-12));
    assert_eq!(parse_i32("+34"), Some(34));
    assert_eq!(parse_i32("2147483647"), Some(i32::MAX));
    assert_eq!(parse_i32("2147483648"), None);
    assert_eq!(parse_i32("-2147483648"), Some(i32::MIN));
    assert_eq!(parse_i32("-2147483649"), None);
    assert_eq!(parse_i32("12a"), None);
    assert_eq!(parse_i32("-"), None);
    assert_eq!(parse_i32(""), None);
}

#[test]
fn unsigned_field_parsing() {
    assert_eq!(parse_u32("4294967295"), Some(u32::MAX));
    assert_eq!(parse_u32("4294967296"), None);
    assert_eq!(parse_u32("-1"), None);
    assert_eq!(parse_u64("18446744073709551615"), Some(u64::MAX));
    assert_eq!(parse_u64("18446744073709551616"), None);
    assert_eq!(parse_u64("+7"), Some(7));
    assert_eq!(parse_u64(""), None);
}

#[test]
fn decimal_shapes() {
    assert!(is_decimal("0"));
    assert!(is_decimal("-0.5"));
    assert!(is_decimal("+1.25"));
    assert!(is_decimal("3."));
    assert!(is_decimal(".5"));
    assert!(is_decimal("1e9"));
    assert!(is_decimal("-2.5E-3"));
    assert!(!is_decimal(""));
    assert!(!is_decimal("."));
    assert!(!is_decimal("1.2.3"));
    assert!(!is_decimal("abc"));
    assert!(!is_decimal("1e"));
    assert!(!is_decimal("--1"));
}
