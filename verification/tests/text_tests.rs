use xiaoai::int_repr::{halve_toward_zero, to_signed, to_unsigned};
use xiaoai::text::{contains, decimal_string, parse_u64, push_zero_padded, replace, starts_with, trim};

#[test]
fn decimal_rendering() {
    assert_eq!(decimal_string(0), "0");
    assert_eq!(decimal_string(42), "42");
    assert_eq!(decimal_string(u64::MAX), "18446744073709551615");
    let mut s = String::from("t=");
    push_zero_padded(&mut s, 7, 3);
    assert_eq!(s, "t=007");
    let mut w = String::new();
    push_zero_padded(&mut w, 12345, 3);
    assert_eq!(w, "12345");
}

#[test]
fn substring_search() {
    assert!(contains("hello world", "lo w"));
    assert!(contains("abc", ""));
    assert!(!contains("abc", "abcd"));
    assert!(contains("小爱同学", "同学"));
    assert!(starts_with("mphelper play", "mphelper"));
    assert!(!starts_with("mp", "mphelper"));
}

#[test]
fn trimming_and_replacing() {
    assert_eq!(trim(" \t a b \n"), "a b");
    assert_eq!(trim("   "), "");
    assert_eq!(trim("\u{2003}x\u{85}"), "x");
    assert_eq!(replace("a%sb%s", "%s", "X"), "aXbX");
    assert_eq!(replace("aaa", "aa", "b"), "ba");
    assert_eq!(replace("abc", "zz", "y"), "abc");
}

#[test]
fn number_parsing() {
    assert_eq!(parse_u64("0"), Some(0));
    assert_eq!(parse_u64("+15"), Some(15));
    assert_eq!(parse_u64("+"), None);
    assert_eq!(parse_u64(""), None);
    assert_eq!(parse_u64(" 1"), None);
    assert_eq!(parse_u64("1_000"), None);
    assert_eq!(parse_u64("18446744073709551615"), Some(u64::MAX));
    assert_eq!(parse_u64("18446744073709551616"), None);
    assert_eq!(parse_u64("99999999999999999999x"), None);
}

#[test]
fn integer_reinterpretation() {
    assert_eq!(to_signed(u128::MAX), -1);
    assert_eq!(to_signed(1 << 127), i128::MIN);
    assert_eq!(to_unsigned(-1), u128::MAX);
    assert_eq!(to_unsigned(i128::MIN), 1 << 127);
    assert_eq!(halve_toward_zero(-5), -2);
    assert_eq!(halve_toward_zero(5), 2);
    assert_eq!(halve_toward_zero(i128::MIN), i128::MIN / 2);
}
