use cdir::text::{contains, parse_decimal, str_eq, to_decimal, to_signed_decimal};

#[test]
fn decimals() {
    assert_eq!(to_decimal(0), "0");
    assert_eq!(to_decimal(7), "7");
    assert_eq!(to_decimal(1234567890), "1234567890");
    assert_eq!(to_signed_decimal(-42), "-42");
    assert_eq!(to_signed_decimal(i64::MIN), i64::MIN.to_string());
    assert_eq!(to_signed_decimal(i64::MAX), i64::MAX.to_string());
}

#[test]
fn parsing_reads_like_str_parse() {
    for text in ["0", "42", "+42", "007", "", "+", "-1", "4 2", "12a", "18446744073709551615", "18446744073709551616"] {
        assert_eq!(parse_decimal(text, u64::MAX), text.parse::<u64>().ok(), "{}", text);
    }
    assert_eq!(parse_decimal("300", 255), None);
    assert_eq!(parse_decimal("255", 255), Some(255));
}

#[test]
fn decimal_round_trip() {
    for n in [0u64, 9, 10, 99, 100, 65535, 4294967296] {
        assert_eq!(parse_decimal(&to_decimal(n as usize), u64::MAX), Some(n));
    }
}

#[test]
fn substring_search() {
    assert!(contains("hello world", "lo w"));
    assert!(contains("abc", ""));
    assert!(contains("", ""));
    assert!(!contains("", "a"));
    assert!(!contains("abc", "abcd"));
    assert!(contains("ééa", "éa"));
    assert!(!contains("abc", "ca"));
}

#[test]
fn string_equality() {
    assert!(str_eq("a/b", "a/b"));
    assert!(!str_eq("a/b", "a/c"));
}
