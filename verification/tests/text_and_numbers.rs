use quota_update::decimal::{decimal_vec, parse_i64, u64_to_decimal};
use quota_update::text::{
    char_vec, contains_chars, decode_utf8_string, join_chars, split_bytes, split_chars, str_contains,
    string_from_chars, trim_chars, white_space,
};

fn chars(s: &str) -> Vec<char> {
    s.chars().collect()
}

fn parse(s: &str) -> Option<i64> {
    parse_i64(&chars(s))
}

#[test]
fn decimal_of_zero_and_large_numbers() {
    assert_eq!(u64_to_decimal(0), "0");
    assert_eq!(u64_to_decimal(7), "7");
    assert_eq!(u64_to_decimal(10), "10");
    assert_eq!(u64_to_decimal(1234567890123), "1234567890123");
    assert_eq!(u64_to_decimal(u64::MAX), "18446744073709551615");
    assert_eq!(decimal_vec(305), vec!['3', '0', '5']);
}

#[test]
fn decimal_agrees_with_to_string() {
    for n in [0u64, 1, 9, 99, 100, 65536, 4294967295, 9223372036854775807, u64::MAX] {
        assert_eq!(u64_to_decimal(n), n.to_string());
    }
}

#[test]
fn parse_accepts_signs_and_leading_zeros() {
    assert_eq!(parse("42"), Some(42));
    assert_eq!(parse("-42"), Some(-42));
    assert_eq!(parse("+7"), Some(7));
    assert_eq!(parse("007"), Some(7));
    assert_eq!(parse("0"), Some(0));
    assert_eq!(parse("-0"), Some(0));
}

#[test]
fn parse_rejects_what_str_parse_rejects() {
    for s in ["", "-", "+", "abc", "4 2", " 42", "42 ", "--1", "+-1", "1e3", "٣"] {
        assert_eq!(parse(s), None, "{s:?}");
        assert!(s.parse::<i64>().is_err());
    }
}

#[test]
fn parse_range_edges() {
    assert_eq!(parse("9223372036854775807"), Some(i64::MAX));
    assert_eq!(parse("9223372036854775808"), None);
    assert_eq!(parse("-9223372036854775808"), Some(i64::MIN));
    assert_eq!(parse("-9223372036854775809"), None);
    assert_eq!(parse("99999999999999999999999999"), None);
    assert_eq!(parse("99999999999999999999999999x"), None);
}

#[test]
fn parse_agrees_with_str_parse() {
    for s in ["1", "-1", "+1", "000", "12345678901234", "-12345678901234", "x1", "1x", ""] {
        assert_eq!(parse(s), s.parse::<i64>().ok(), "{s:?}");
    }
}

#[test]
fn chars_of_a_string() {
    assert_eq!(char_vec("héllo"), vec!['h', 'é', 'l', 'l', 'o']);
    assert_eq!(char_vec(""), Vec::<char>::new());
}

#[test]
fn string_from_chars_pushes_each_char() {
    assert_eq!(string_from_chars(&['a', 'ß', '/']), "aß/");
    assert_eq!(string_from_chars(&[]), "");
}

#[test]
fn split_keeps_empty_pieces() {
    assert_eq!(split_chars(&chars("a\nb"), '\n'), vec![chars("a"), chars("b")]);
    assert_eq!(split_chars(&chars(""), '\n'), vec![chars("")]);
    assert_eq!(split_chars(&chars("a\n"), '\n'), vec![chars("a"), chars("")]);
    assert_eq!(split_chars(&chars("\n\n"), '\n'), vec![chars(""), chars(""), chars("")]);
    assert_eq!(split_bytes(&[1, 0, 2, 3, 0], 0), vec![vec![1], vec![2, 3], vec![]]);
}

#[test]
fn join_undoes_split() {
    for s in ["a#b#c", "#", "", "abc", "##x#"] {
        let pieces = split_chars(&chars(s), '#');
        assert_eq!(join_chars(&pieces, '#'), chars(s));
    }
}

#[test]
fn contains_finds_substrings() {
    assert!(str_contains("a COMP file", "COMP"));
    assert!(str_contains("COMP", "COMP"));
    assert!(!str_contains("COM", "COMP"));
    assert!(str_contains("", ""));
    assert!(str_contains("abc", ""));
    assert!(!str_contains("", "a"));
    assert!(str_contains("aaab", "aab"));
    assert!(!contains_chars(&chars("abcd"), &chars("bd")));
}

#[test]
fn trim_removes_unicode_white_space() {
    assert_eq!(trim_chars(&chars("  42 \t\r")), chars("42"));
    assert_eq!(trim_chars(&chars("\u{a0}\u{3000}7\u{2028}")), chars("7"));
    assert_eq!(trim_chars(&chars(" \n ")), chars(""));
    assert_eq!(trim_chars(&chars("a b")), chars("a b"));
    for c in (0u32..0x11000).filter_map(char::from_u32) {
        assert_eq!(white_space(c), c.is_whitespace(), "{c:?}");
    }
}

#[test]
fn utf8_decoding() {
    assert_eq!(decode_utf8_string("héllo".as_bytes()), Some(String::from("héllo")));
    assert_eq!(decode_utf8_string(&[]), Some(String::new()));
    assert_eq!(decode_utf8_string(&[0xff, 0x41]), None);
    assert_eq!(decode_utf8_string(&[0xc3]), None);
}
