use footprint::decimal::{i64_text, is_number_text, parse_decimal, parse_natural, u64_text};

const MAX: u64 = i64::MAX as u64;

#[test]
fn decimal_forms() {
    assert_eq!(parse_decimal("12.345", 3, MAX), Some(12_345));
    assert_eq!(parse_decimal("-0.5", 3, MAX), Some(-500));
    assert_eq!(parse_decimal("+7", 3, MAX), Some(7_000));
    assert_eq!(parse_decimal(".5", 3, MAX), Some(500));
    assert_eq!(parse_decimal("5.", 3, MAX), Some(5_000));
    assert_eq!(parse_decimal("42", 0, MAX), Some(42));
    assert_eq!(parse_decimal("10.000000001", 9, MAX), Some(10_000_000_001));
}

#[test]
fn decimal_truncates_toward_zero() {
    assert_eq!(parse_decimal("1.23456", 3, MAX), Some(1_234));
    assert_eq!(parse_decimal("-1.23456", 3, MAX), Some(-1_234));
}

#[test]
fn decimal_rejects_other_text() {
    for text in ["", "-", "+", ".", "-.", " 1", "1 ", "1.2.3", "abc", "1,5", "--1", "1e", "1e+", "e3", "1.2e3.4", "1e3x", "NaN", "inf"] {
        assert_eq!(parse_decimal(text, 3, MAX), None, "{text}");
    }
}

#[test]
fn decimal_limit() {
    assert_eq!(parse_decimal("9.999", 3, 9_999), Some(9_999));
    assert_eq!(parse_decimal("-9.999", 3, 9_999), Some(-9_999));
    assert_eq!(parse_decimal("10", 3, 9_999), None);
    assert_eq!(parse_decimal("99999999999999999999999999", 0, MAX), None);
    assert_eq!(parse_decimal("9223372036854775807", 0, MAX), Some(i64::MAX));
}

#[test]
fn natural_forms() {
    assert_eq!(parse_natural("42"), Some(42));
    assert_eq!(parse_natural("+42"), Some(42));
    assert_eq!(parse_natural("007"), Some(7));
    assert_eq!(parse_natural("-1"), None);
    assert_eq!(parse_natural(""), None);
    assert_eq!(parse_natural("+"), None);
    assert_eq!(parse_natural("4 2"), None);
    assert_eq!(parse_natural("1.0"), None);
    assert_eq!(parse_natural("340282366920938463463374607431768211456"), None);
}

#[test]
fn number_text() {
    for text in ["0", "-1", "+2.5", ".5", "5.", "99999999999999999999999999.123456789012345678901", "1e3", "2.5E-2", "-1.5e+2"] {
        assert!(is_number_text(text), "{text}");
    }
    for text in ["", "-", ".", "+.", "1e", "e3", ".e1", " 1", "1.2.3", "NaN", "abc", "1-"] {
        assert!(!is_number_text(text), "{text}");
    }
}

#[test]
fn decimal_exponents() {
    assert_eq!(parse_decimal("1e3", 0, MAX), Some(1_000));
    assert_eq!(parse_decimal("1E3", 3, MAX), Some(1_000_000));
    assert_eq!(parse_decimal("2.5E-2", 3, MAX), Some(25));
    assert_eq!(parse_decimal("1e-7", 9, MAX), Some(100));
    assert_eq!(parse_decimal("1e-7", 3, MAX), Some(0));
    assert_eq!(parse_decimal("-1.5e+2", 0, MAX), Some(-150));
    assert_eq!(parse_decimal("-1.2345e1", 2, MAX), Some(-1_234));
    assert_eq!(parse_decimal("123456789012345678901234567890e-25", 0, MAX), Some(12_345));
    assert_eq!(parse_decimal("0e99999999999999999999999", 9, MAX), Some(0));
    assert_eq!(parse_decimal("1e99999999999999999999999", 0, MAX), None);
    assert_eq!(parse_decimal("1e-99999999999999999999999", 9, MAX), Some(0));
    assert_eq!(parse_decimal("9.223372036854775807e18", 0, MAX), Some(i64::MAX));
    assert_eq!(parse_decimal("1e19", 0, MAX), None);
    assert_eq!(parse_decimal("1e4", 0, 9_999), None);
}

#[test]
fn integers_in_decimal() {
    assert_eq!(u64_text(0), "0");
    assert_eq!(u64_text(7), "7");
    assert_eq!(u64_text(1_000_200), "1000200");
    assert_eq!(u64_text(u64::MAX), "18446744073709551615");
    assert_eq!(i64_text(-5), "-5");
    assert_eq!(i64_text(i64::MIN), "-9223372036854775808");
    assert_eq!(i64_text(i64::MAX), "9223372036854775807");
}
