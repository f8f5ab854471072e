use prism_book::data_types::AMOUNT_SCALE;
use prism_book::decimal::{parse_amount, parse_price};

#[test]
fn price_strings_become_ticks() {
    assert_eq!(parse_price("10.01"), Some(1001));
    assert_eq!(parse_price("100.00"), Some(10000));
    assert_eq!(parse_price("100.50"), Some(10050));
    assert_eq!(parse_price("5541.30000"), Some(554130));
    assert_eq!(parse_price("25000"), Some(2500000));
    assert_eq!(parse_price("0.01"), Some(1));
    assert_eq!(parse_price("0.5"), Some(50));
    assert_eq!(parse_price(".5"), Some(50));
    assert_eq!(parse_price("7."), Some(700));
}

#[test]
fn price_rounds_at_third_fraction_digit() {
    assert_eq!(parse_price("10.015"), Some(1002));
    assert_eq!(parse_price("10.0149"), Some(1001));
    assert_eq!(parse_price("10.0050"), Some(1001));
    assert_eq!(parse_price("10.0049"), Some(1000));
}

#[test]
fn malformed_prices_are_rejected() {
    assert_eq!(parse_price(""), None);
    assert_eq!(parse_price("."), None);
    assert_eq!(parse_price("10.0.1"), None);
    assert_eq!(parse_price("-10.0"), None);
    assert_eq!(parse_price("1e4"), None);
    assert_eq!(parse_price("12a.0"), None);
    assert_eq!(parse_price("12.a0"), None);
}

#[test]
fn overlong_prices_are_rejected_but_leading_zeros_are_not() {
    assert_eq!(parse_price("9999999999999999999999999999999"), None);
    assert_eq!(parse_price("0000000000000000000000000000000000010.01"), Some(1001));
}

#[test]
fn amount_strings_become_fixed_point() {
    assert_eq!(parse_amount("1100.0"), Some(1100 * AMOUNT_SCALE));
    assert_eq!(parse_amount("1.0"), Some(AMOUNT_SCALE));
    assert_eq!(parse_amount("2.50700000"), Some(250_700_000));
    assert_eq!(parse_amount("0.00000001"), Some(1));
    assert_eq!(parse_amount("0"), Some(0));
    assert_eq!(parse_amount("157.52791502"), Some(15_752_791_502));
}

#[test]
fn amount_truncates_past_eighth_fraction_digit() {
    assert_eq!(parse_amount("0.000000019"), Some(1));
    assert_eq!(parse_amount("1.123456789"), Some(112_345_678));
}

#[test]
fn malformed_amounts_are_rejected() {
    assert_eq!(parse_amount(""), None);
    assert_eq!(parse_amount("."), None);
    assert_eq!(parse_amount("1,5"), None);
    assert_eq!(parse_amount("-1"), None);
}
