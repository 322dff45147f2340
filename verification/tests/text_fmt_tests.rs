use periph_monitor::fmt::{decimal, parse_i64, parse_u32, signed_decimal, two_digits};
use periph_monitor::system::to_wide;
use periph_monitor::text::{after_last_char, eq_ignore_ascii_case, remove_char, trim};

fn chars(s: &str) -> Vec<char> {
    s.chars().collect()
}

#[test]
fn decimal_renders_like_format() {
    for n in [0u64, 7, 10, 99, 1234567890, u64::MAX] {
        assert_eq!(decimal(n), format!("{}", n));
    }
    for n in [0i64, -1, 42, i64::MIN, i64::MAX] {
        assert_eq!(signed_decimal(n), format!("{}", n));
    }
    assert_eq!(two_digits(5), "05");
    assert_eq!(two_digits(59), "59");
}

#[test]
fn parse_u32_agrees_with_std() {
    for s in ["0", "42", "+42", "4294967295", "4294967296", "", "+", "-1", "1.5", " 1"] {
        assert_eq!(parse_u32(&chars(s)), s.parse::<u32>().ok(), "input {:?}", s);
    }
}

#[test]
fn parse_i64_agrees_with_std() {
    for s in [
        "0", "-0", "+0", "17", "-17", "+17", "9223372036854775807", "9223372036854775808",
        "-9223372036854775808", "-9223372036854775809", "", "-", "+", "12a", "1 ", "--1", "٣",
    ] {
        assert_eq!(parse_i64(&chars(s)), s.parse::<i64>().ok(), "input {:?}", s);
    }
    assert_eq!(parse_i64(&chars("-9223372036854775808")), Some(i64::MIN));
}

#[test]
fn trim_agrees_with_std() {
    for s in ["", "   ", " a ", "\t\na b\r\n", "\u{3000}文字\u{3000}", "\u{85}x\u{a0}", "x\u{200b}"] {
        assert_eq!(trim(s), s.trim(), "input {:?}", s);
    }
}

#[test]
fn remove_char_and_after_last() {
    assert_eq!(remove_char("aa:bb:cc", ':'), "aabbcc");
    assert_eq!(remove_char(":::", ':'), "");
    assert_eq!(after_last_char("a-b-c", '-'), "c");
    assert_eq!(after_last_char("abc", '-'), "abc");
    assert_eq!(after_last_char("abc-", '-'), "");
}

#[test]
fn eq_ignore_ascii_case_matches_std() {
    for (a, b) in [("MEDIA", "media"), ("Mouse", "mouse"), ("Ä", "ä"), ("abc", "abcd")] {
        assert_eq!(eq_ignore_ascii_case(a, b), a.eq_ignore_ascii_case(b));
    }
}

#[test]
fn to_wide_is_utf16_with_terminator() {
    for s in ["", "open", "声音", "emoji 🟢"] {
        let mut expected: Vec<u16> = s.encode_utf16().collect();
        expected.push(0);
        assert_eq!(to_wide(s), expected);
    }
}
