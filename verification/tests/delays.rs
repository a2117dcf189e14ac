use dotool::delay::parse_delay;

#[test]
fn whole_numbers_parse_exactly() {
    assert_eq!(parse_delay("0"), Some(0));
    assert_eq!(parse_delay("2"), Some(2));
    assert_eq!(parse_delay("50"), Some(50));
    assert_eq!(parse_delay("1000"), Some(1000));
}

#[test]
fn fractions_truncate_toward_zero() {
    assert_eq!(parse_delay("50.9"), Some(50));
    assert_eq!(parse_delay("2.5"), Some(2));
    assert_eq!(parse_delay("0.75"), Some(0));
    assert_eq!(parse_delay(".5"), Some(0));
    assert_eq!(parse_delay("7."), Some(7));
}

#[test]
fn signs_are_accepted_and_negatives_clamp_to_zero() {
    assert_eq!(parse_delay("+7"), Some(7));
    assert_eq!(parse_delay("-5"), Some(0));
    assert_eq!(parse_delay("-0.5"), Some(0));
}

#[test]
fn huge_values_saturate() {
    assert_eq!(parse_delay("18446744073709551615"), Some(u64::MAX));
    assert_eq!(parse_delay("18446744073709551616"), Some(u64::MAX));
    assert_eq!(parse_delay("99999999999999999999999"), Some(u64::MAX));
}

#[test]
fn malformed_delays_do_not_parse() {
    assert_eq!(parse_delay(""), None);
    assert_eq!(parse_delay("."), None);
    assert_eq!(parse_delay("+"), None);
    assert_eq!(parse_delay("-"), None);
    assert_eq!(parse_delay("abc"), None);
    assert_eq!(parse_delay("2.5.3"), None);
    assert_eq!(parse_delay("5 0"), None);
    assert_eq!(parse_delay("5ms"), None);
}
