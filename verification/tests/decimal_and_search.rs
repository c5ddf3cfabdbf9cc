use komodo_cli::decimal::{parse_i32, push_decimal, push_decimal_str, push_i32, push_i32_str};
use komodo_cli::search::{contains_subslice, find_first_subslice, matches_at};
use komodo_cli::terminal::find_last_subslice;

#[test]
fn parse_i32_reads_plain_and_signed_numbers() {
    assert_eq!(parse_i32(b"0"), Some(0));
    assert_eq!(parse_i32(b"-5"), Some(-5));
    assert_eq!(parse_i32(b"+7"), Some(7));
    assert_eq!(parse_i32(b"007"), Some(7));
    assert_eq!(parse_i32(b"2147483647"), Some(i32::MAX));
    assert_eq!(parse_i32(b"-2147483648"), Some(i32::MIN));
}

#[test]
fn parse_i32_refuses_what_str_parse_refuses() {
    for text in ["", "-", "+", "1-2", " 1", "1 ", "--1", "+-1", "12a", "2147483648", "-2147483649", "99999999999999999999"] {
        assert_eq!(parse_i32(text.as_bytes()), None, "{text:?}");
        assert!(text.parse::<i32>().is_err(), "{text:?}");
    }
}

#[test]
fn parse_i32_agrees_with_str_parse() {
    for text in ["0", "-0", "+0", "123", "-123", "65535", "-2147483647", "000000000000042"] {
        assert_eq!(parse_i32(text.as_bytes()), text.parse::<i32>().ok(), "{text:?}");
    }
}

#[test]
fn decimal_text_matches_format() {
    for v in [0i32, 1, 9, 10, 99, 100, -1, -10, 12345, i32::MAX, i32::MIN] {
        let mut bytes = Vec::new();
        push_i32(&mut bytes, v);
        assert_eq!(bytes, v.to_string().into_bytes());
        let mut s = String::from("x=");
        push_i32_str(&mut s, v);
        assert_eq!(s, format!("x={v}"));
    }
    let mut bytes = b"n:".to_vec();
    push_decimal(&mut bytes, u128::MAX);
    assert_eq!(bytes, format!("n:{}", u128::MAX).into_bytes());
    let mut s = String::new();
    push_decimal_str(&mut s, 1_700_000_000_123);
    assert_eq!(s, "1700000000123");
}

#[test]
fn decimal_text_reads_back() {
    for v in [0i32, 7, -7, 1000, -99999, i32::MAX, i32::MIN] {
        let mut bytes = Vec::new();
        push_i32(&mut bytes, v);
        assert_eq!(parse_i32(&bytes), Some(v));
    }
}

#[test]
fn find_last_subslice_finds_the_last_occurrence() {
    assert_eq!(find_last_subslice(b"abcabc", b"bc"), Some(4));
    assert_eq!(find_last_subslice(b"abcabc", b"abc"), Some(3));
    assert_eq!(find_last_subslice(b"aaaa", b"aa"), Some(2));
    assert_eq!(find_last_subslice(b"abc", b"x"), None);
    assert_eq!(find_last_subslice(b"ab", b"abc"), None);
    assert_eq!(find_last_subslice(b"", b"a"), None);
    assert_eq!(find_last_subslice(b"abc", b"abc"), Some(0));
}

#[test]
fn find_first_subslice_finds_the_first_occurrence() {
    assert_eq!(find_first_subslice(b"abcabc", b"bc"), Some(1));
    assert_eq!(find_first_subslice(b"abc", b""), Some(0));
    assert_eq!(find_first_subslice(b"abc", b"cd"), None);
    assert!(contains_subslice(b"hello world", b"o w"));
    assert!(!contains_subslice(b"hello", b"world"));
    assert!(matches_at(b"hello", b"ll", 2));
    assert!(!matches_at(b"hello", b"ll", 3));
    assert!(!matches_at(b"hello", b"ll", 9));
}
