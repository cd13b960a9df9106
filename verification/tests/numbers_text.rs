use sensor_node::numbers::{
    decimal_chars, hex_chars, parse_chars, parse_text, signed_decimal_chars,
};
use sensor_node::text::{
    append_chars, append_str, from_chars, replace_chars, same_chars, same_text, split_chars,
    to_chars,
};

fn chars(s: &str) -> Vec<char> {
    s.chars().collect()
}

fn text(v: Vec<char>) -> String {
    v.into_iter().collect()
}

fn decimal_text(n: u64) -> String {
    text(decimal_chars(n))
}

fn hex_text(n: u32) -> String {
    text(hex_chars(n))
}

fn replace(t: &str, token: &str, value: &str) -> String {
    text(replace_chars(&chars(t), &chars(token), &chars(value)))
}

#[test]
fn decimal_writes_as_std_does() {
    for n in [0u64, 1, 9, 10, 42, 99, 100, 255, 3_600_000_000, u64::MAX] {
        assert_eq!(decimal_text(n), n.to_string());
    }
}

#[test]
fn hex_writes_lower_case_without_prefix() {
    assert_eq!(hex_text(0), "0");
    assert_eq!(hex_text(0x2a), "2a");
    assert_eq!(hex_text(42), "2a");
    assert_eq!(hex_text(0xABCDEF), "abcdef");
    assert_eq!(hex_text(u32::MAX), "ffffffff");
    for n in [1u32, 15, 16, 255, 256, 0x1000_0000] {
        assert_eq!(text(hex_chars(n)), format!("{:x}", n));
    }
}

#[test]
fn signed_decimal_has_its_minus() {
    for v in [0i8, 1, -1, 100, -100, i8::MAX, i8::MIN] {
        assert_eq!(text(signed_decimal_chars(v)), v.to_string());
    }
}

#[test]
fn parse_reads_as_std_does() {
    for s in ["0", "7", "255", "256", "+1", "+", "", "-1", " 1", "1 ", "1_0", "0x1", "００", "12a", "00012"] {
        assert_eq!(parse_text(s, 10, 255), s.parse::<u8>().ok().map(u64::from), "{:?}", s);
        assert_eq!(parse_text(s, 10, u64::MAX), s.parse::<u64>().ok(), "{:?}", s);
        assert_eq!(
            parse_text(s, 16, 0xffff_ffff),
            u32::from_str_radix(s, 16).ok().map(u64::from),
            "{:?}",
            s
        );
    }
    assert_eq!(parse_text("18446744073709551615", 10, u64::MAX), Some(u64::MAX));
    assert_eq!(parse_text("18446744073709551616", 10, u64::MAX), None);
    assert_eq!(parse_text("99999999999999999999999999", 10, u64::MAX), None);
    assert_eq!(parse_text("FfFfFfFf", 16, 0xffff_ffff), Some(0xffff_ffff));
    assert_eq!(parse_text("100000000", 16, 0xffff_ffff), None);
    assert_eq!(parse_text("g", 16, 0xffff_ffff), None);
    assert_eq!(parse_text("a", 10, 255), None);
    assert_eq!(parse_chars(&chars("+2a"), 16, 100), Some(42));
    assert_eq!(parse_text("101", 2, 100), Some(5));
    assert_eq!(parse_text("102", 2, 100), None);
}

#[test]
fn what_is_written_is_read_back() {
    for n in [0u64, 5, 10, 1234567890, u64::MAX] {
        assert_eq!(parse_text(&decimal_text(n), 10, u64::MAX), Some(n));
    }
    for n in [0u32, 5, 16, 0x2a, u32::MAX] {
        assert_eq!(parse_text(&hex_text(n), 16, 0xffff_ffff), Some(n as u64));
    }
}

#[test]
fn text_goes_to_characters_and_back() {
    assert_eq!(to_chars("héllo"), chars("héllo"));
    assert_eq!(to_chars(""), Vec::<char>::new());
    assert_eq!(from_chars(&chars("日本 ok")), "日本 ok");
    assert!(same_text("abc", "abc"));
    assert!(!same_text("abc", "abd"));
    assert!(!same_text("abc", "ab"));
    assert!(same_text("", ""));
    assert!(same_chars(&chars("x"), &chars("x")));
    assert!(!same_chars(&chars("x"), &chars("y")));
    let mut out = chars("ab");
    append_chars(&mut out, &chars("cd"));
    append_str(&mut out, "ef");
    assert_eq!(text(out), "abcdef");
}

#[test]
fn replace_works_as_std_does_for_tokens() {
    let cases = [
        ("a{T}b{T}c", "{T}", "x"),
        ("{T}", "{T}", ""),
        ("no token", "{T}", "x"),
        ("aaaa", "aa", "b"),
        ("aaa", "aa", "b"),
        ("abab", "ab", "abab"),
        ("", "{T}", "x"),
        ("{T", "{T}", "x"),
        ("xx{T}", "{T}", "{T}{T}"),
        ("ééé", "é", "e"),
    ];
    for (t, token, value) in cases {
        assert_eq!(replace(t, token, value), t.replace(token, value), "{:?}", (t, token, value));
    }
}

#[test]
fn an_empty_token_occurs_nowhere() {
    assert_eq!(replace("abc", "", "x"), "abc");
    assert_eq!(replace("", "", "x"), "");
}

#[test]
fn split_cuts_at_every_separator() {
    let cases = ["a&b&c", "", "&", "a&&b", "&a", "a&", "abc", "&&"];
    for s in cases {
        let pieces: Vec<String> = split_chars(&chars(s), '&').into_iter().map(text).collect();
        let expected: Vec<String> = s.split('&').map(str::to_string).collect();
        assert_eq!(pieces, expected, "{:?}", s);
    }
}
