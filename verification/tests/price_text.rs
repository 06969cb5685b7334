//! Decimal parsing and rendering: exact values, rejection of malformed
//! input, and range limits.

use orderbook_aggregator::price::{parse_price, SCALE};
use orderbook_aggregator::text::{str_eq, u64_to_string};

#[test]
fn parses_integers() {
    assert_eq!(parse_price("0"), Some(0));
    assert_eq!(parse_price("1"), Some(SCALE));
    assert_eq!(parse_price("100"), Some(100 * SCALE));
    assert_eq!(parse_price("007"), Some(7 * SCALE));
}

#[test]
fn parses_fractions() {
    assert_eq!(parse_price("100.5"), Some(100 * SCALE + 50_000_000));
    assert_eq!(parse_price("100.8"), Some(100 * SCALE + 80_000_000));
    assert_eq!(parse_price("0.00000001"), Some(1));
    assert_eq!(parse_price("0.12345678"), Some(12_345_678));
    assert_eq!(parse_price("42.000"), Some(42 * SCALE));
}

#[test]
fn rejects_malformed() {
    assert_eq!(parse_price(""), None);
    assert_eq!(parse_price("."), None);
    assert_eq!(parse_price("1."), None);
    assert_eq!(parse_price(".5"), None);
    assert_eq!(parse_price("1.2.3"), None);
    assert_eq!(parse_price("abc"), None);
    assert_eq!(parse_price("1e5"), None);
    assert_eq!(parse_price("-1"), None);
    assert_eq!(parse_price("+1"), None);
    assert_eq!(parse_price(" 1"), None);
    assert_eq!(parse_price("NaN"), None);
}

#[test]
fn rejects_excess_precision() {
    // More than eight fraction digits cannot be held exactly.
    assert_eq!(parse_price("0.000000001"), None);
    assert_eq!(parse_price("1.123456789"), None);
}

#[test]
fn rejects_out_of_range() {
    // 2^64 / 10^8 ~= 184467440737.09, the largest representable value.
    assert_eq!(parse_price("184467440738"), None);
    assert_eq!(parse_price("99999999999999999999"), None);
    assert_eq!(parse_price("184467440737"), Some(184_467_440_737 * SCALE));
    assert_eq!(parse_price("184467440737.1"), None);
}

#[test]
fn renders_decimals() {
    assert_eq!(u64_to_string(0), "0");
    assert_eq!(u64_to_string(7), "7");
    assert_eq!(u64_to_string(10), "10");
    assert_eq!(u64_to_string(1_234_567_890), "1234567890");
    assert_eq!(u64_to_string(u64::MAX), "18446744073709551615");
}

#[test]
fn string_equality_is_exact() {
    assert!(str_eq("", ""));
    assert!(str_eq("abc", "abc"));
    assert!(!str_eq("abc", "abd"));
    assert!(!str_eq("abc", "ab"));
    assert!(!str_eq("ab", "abc"));
}
