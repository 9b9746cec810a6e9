use redis_starter_rust::decimal::{
    decimal_string, parse_digits, parse_signed, parse_unsigned, push_decimal, push_signed_decimal,
    signed_decimal_string,
};

#[test]
fn parse_unsigned_takes_digits_and_a_plus_sign() {
    assert_eq!(parse_unsigned(b"0"), Some(0));
    assert_eq!(parse_unsigned(b"007"), Some(7));
    assert_eq!(parse_unsigned(b"+42"), Some(42));
    assert_eq!(parse_unsigned(b"18446744073709551615"), Some(u64::MAX));
    assert_eq!(parse_unsigned(b"18446744073709551616"), None);
    assert_eq!(parse_unsigned(b""), None);
    assert_eq!(parse_unsigned(b"+"), None);
    assert_eq!(parse_unsigned(b"-1"), None);
    assert_eq!(parse_unsigned(b"1 "), None);
    assert_eq!(parse_unsigned(b"1a"), None);
}

#[test]
fn parse_signed_takes_a_sign() {
    assert_eq!(parse_signed(b"-1"), Some(-1));
    assert_eq!(parse_signed(b"+1"), Some(1));
    assert_eq!(parse_signed(b"-0"), Some(0));
    assert_eq!(parse_signed(b"9223372036854775807"), Some(i64::MAX));
    assert_eq!(parse_signed(b"9223372036854775808"), None);
    assert_eq!(parse_signed(b"-9223372036854775808"), Some(i64::MIN));
    assert_eq!(parse_signed(b"-9223372036854775809"), None);
    assert_eq!(parse_signed(b"-"), None);
    assert_eq!(parse_signed(b"--1"), None);
    assert_eq!(parse_signed(b""), None);
}

#[test]
fn parse_digits_reads_from_a_position() {
    assert_eq!(parse_digits(b"ab12", 2), Some(12));
    assert_eq!(parse_digits(b"ab12", 4), None);
    assert_eq!(parse_digits(b"ab12", 1), None);
}

#[test]
fn decimal_text_of_numbers() {
    assert_eq!(decimal_string(0), "0");
    assert_eq!(decimal_string(6379), "6379");
    assert_eq!(decimal_string(u64::MAX), "18446744073709551615");
    assert_eq!(signed_decimal_string(-1), "-1");
    assert_eq!(signed_decimal_string(i64::MIN), "-9223372036854775808");
    assert_eq!(signed_decimal_string(17), "17");
    let mut out = b"x".to_vec();
    push_decimal(&mut out, 105);
    push_signed_decimal(&mut out, -20);
    assert_eq!(out, b"x105-20".to_vec());
}

#[test]
fn decimal_text_reads_back() {
    for n in [0u64, 9, 10, 99, 100, 65535, u64::MAX] {
        assert_eq!(parse_unsigned(decimal_string(n).as_bytes()), Some(n));
    }
    for n in [i64::MIN, -10, -1, 0, 1, i64::MAX] {
        assert_eq!(parse_signed(signed_decimal_string(n).as_bytes()), Some(n));
    }
}
