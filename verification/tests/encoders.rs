use mangapill::encode::i32_to_string;
use mangapill::encode::parse_decimal;
use mangapill::encode::urlencode;
use mangapill::text::chars_vec;

#[test]
fn integer_to_string_zero() {
    assert_eq!(i32_to_string(0), "0");
}

#[test]
fn integer_to_string_negative() {
    assert_eq!(i32_to_string(-42), "-42");
}

#[test]
fn integer_to_string_positive() {
    assert_eq!(i32_to_string(7), "7");
}

#[test]
fn integer_to_string_min_value() {
    assert_eq!(i32_to_string(i32::MIN), "-2147483648");
}

#[test]
fn integer_to_string_round_trip() {
    for n in [1i32, 7, 10, 99, 100, 12345, i32::MAX] {
        let s = i32_to_string(n);
        let parsed = parse_decimal(&chars_vec(&s)).unwrap();
        assert_eq!(parsed, n as u64);
    }
}

#[test]
fn parse_decimal_rejects_non_digits() {
    assert_eq!(parse_decimal(&chars_vec("12a")), None);
    assert_eq!(parse_decimal(&chars_vec("")), None);
    assert_eq!(parse_decimal(&chars_vec("-5")), None);
}

#[test]
fn parse_decimal_rejects_overflow() {
    assert_eq!(parse_decimal(&chars_vec("18446744073709551615")), Some(u64::MAX));
    assert_eq!(parse_decimal(&chars_vec("18446744073709551616")), None);
}

#[test]
fn percent_encode_space() {
    assert_eq!(urlencode(String::from("a b")), "a%20b");
}

#[test]
fn percent_encode_safe_unchanged() {
    assert_eq!(urlencode(String::from("ABC123")), "ABC123");
}

#[test]
fn percent_encode_idempotent_on_safe() {
    let once = urlencode(String::from("OnePiece42"));
    let twice = urlencode(once.clone());
    assert_eq!(once, "OnePiece42");
    assert_eq!(twice, once);
}

#[test]
fn percent_encode_lowercase_hex() {
    assert_eq!(urlencode(String::from("~")), "%7e");
    assert_eq!(urlencode(String::from("?=&")), "%3f%3d%26");
}

#[test]
fn percent_encode_multibyte_utf8() {
    assert_eq!(urlencode(String::from("\u{e9}")), "%c3%a9");
}

#[test]
fn percent_encode_empty() {
    assert_eq!(urlencode(String::new()), "");
}
