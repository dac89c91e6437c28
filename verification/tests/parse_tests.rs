use funding_rate::num::{MAX_PRICE_RAW, RATE_SCALE};
use funding_rate::parse::{parse_plain_u32, parse_price, parse_rate, parse_scaled};

#[test]
fn price_whole_number() {
    let p = parse_price("100").unwrap();
    assert_eq!(p.raw, 100_000_000);
}

#[test]
fn price_with_fraction() {
    let p = parse_price("100.5").unwrap();
    assert_eq!(p.raw, 100_500_000);
}

#[test]
fn price_zero() {
    let p = parse_price("0").unwrap();
    assert_eq!(p.raw, 0);
    let q = parse_price("0.000000").unwrap();
    assert_eq!(q.raw, 0);
}

#[test]
fn price_extra_digits_truncate() {
    // Only six fractional digits are kept; the rest truncate toward zero.
    let p = parse_price("100.123456789").unwrap();
    assert_eq!(p.raw, 100_123_456);
}

#[test]
fn price_rejects_negative() {
    assert!(parse_price("-1").is_none());
    assert!(parse_price("-0.5").is_none());
}

#[test]
fn price_rejects_malformed() {
    assert!(parse_price("").is_none());
    assert!(parse_price("abc").is_none());
    assert!(parse_price("1.").is_none());
    assert!(parse_price(".5").is_none());
    assert!(parse_price("1..5").is_none());
    assert!(parse_price("1.2.3").is_none());
    assert!(parse_price("1,5").is_none());
    assert!(parse_price("-").is_none());
}

#[test]
fn price_range_limits() {
    let p = parse_price("100000000").unwrap();
    assert_eq!(p.raw, MAX_PRICE_RAW);
    assert!(parse_price("100000000.000001").is_none());
    assert!(parse_price("99999999999999999999").is_none());
}

#[test]
fn price_leading_zeros() {
    let p = parse_price("000000000000000000100.5").unwrap();
    assert_eq!(p.raw, 100_500_000);
}

#[test]
fn rate_signed_values() {
    let f = parse_rate("0.0000125").unwrap();
    assert_eq!(f.raw, 12_500);
    let g = parse_rate("-0.0000125").unwrap();
    assert_eq!(g.raw, -12_500);
}

#[test]
fn rate_magnitude_cap() {
    let f = parse_rate("1").unwrap();
    assert_eq!(f.raw, RATE_SCALE);
    let g = parse_rate("-1.0").unwrap();
    assert_eq!(g.raw, -RATE_SCALE);
    assert!(parse_rate("1.000000001").is_none());
    assert!(parse_rate("-1.5").is_none());
}

#[test]
fn rate_full_precision() {
    let f = parse_rate("0.123456789").unwrap();
    assert_eq!(f.raw, 123_456_789);
}

#[test]
fn scaled_zero_fraction_digits() {
    assert_eq!(parse_scaled("42", 0, 1_000_000).unwrap(), 42);
    assert_eq!(parse_scaled("42.9", 0, 1_000_000).unwrap(), 42);
}

#[test]
fn plain_u32_values() {
    assert_eq!(parse_plain_u32("142"), Some(142));
    assert_eq!(parse_plain_u32("0"), Some(0));
    assert_eq!(parse_plain_u32("4294967295"), Some(u32::MAX));
    assert_eq!(parse_plain_u32("4294967296"), None);
    assert_eq!(parse_plain_u32(""), None);
    assert_eq!(parse_plain_u32("12a"), None);
    assert_eq!(parse_plain_u32("-3"), None);
    assert_eq!(parse_plain_u32("3.5"), None);
}
