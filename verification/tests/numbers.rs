use zk4lw::numbers::{is_float_str, parse_i64};

#[test]
fn parses_plain_and_signed_integers() {
    assert_eq!(parse_i64("0"), Some(0));
    assert_eq!(parse_i64("42"), Some(42));
    assert_eq!(parse_i64("+5"), Some(5));
    assert_eq!(parse_i64("-1"), Some(-1));
    assert_eq!(parse_i64("1048576"), Some(1048576));
}

#[test]
fn parses_the_extreme_values() {
    assert_eq!(parse_i64("9223372036854775807"), Some(i64::MAX));
    assert_eq!(parse_i64("-9223372036854775808"), Some(i64::MIN));
}

#[test]
fn rejects_out_of_range_integers() {
    assert_eq!(parse_i64("9223372036854775808"), None);
    assert_eq!(parse_i64("-9223372036854775809"), None);
    assert_eq!(parse_i64("99999999999999999999999999"), None);
}

#[test]
fn rejects_non_integer_text() {
    assert_eq!(parse_i64(""), None);
    assert_eq!(parse_i64("-"), None);
    assert_eq!(parse_i64("+"), None);
    assert_eq!(parse_i64("1.5"), None);
    assert_eq!(parse_i64("12a"), None);
    assert_eq!(parse_i64(" 1"), None);
    assert_eq!(parse_i64("--3"), None);
}

#[test]
fn accepts_well_formed_float_text() {
    assert!(is_float_str("0.0"));
    assert!(is_float_str("0"));
    assert!(is_float_str(".5"));
    assert!(is_float_str("1."));
    assert!(is_float_str("-2.75"));
    assert!(is_float_str("+0.3157"));
    assert!(is_float_str("1e5"));
    assert!(is_float_str("1.25E-3"));
    assert!(is_float_str("inf"));
    assert!(is_float_str("-Infinity"));
    assert!(is_float_str("NaN"));
}

#[test]
fn rejects_ill_formed_float_text() {
    assert!(!is_float_str(""));
    assert!(!is_float_str("."));
    assert!(!is_float_str("e5"));
    assert!(!is_float_str("1e"));
    assert!(!is_float_str("1e+"));
    assert!(!is_float_str("1.2.3"));
    assert!(!is_float_str("not-a-number"));
    assert!(!is_float_str("nan(payload)"));
    assert!(!is_float_str(" 1.0"));
}
