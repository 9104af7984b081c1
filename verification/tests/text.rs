use rscan::order::order_of;
use rscan::text::{
    char_is_whitespace, chars_of, decimal_text, join, lines, parse_u8, parse_unsigned,
    remove_all, same_text, split, split_whitespace, starts_with, trim,
};

#[test]
fn trim_removes_whitespace_at_both_ends_only() {
    assert_eq!(trim("  a b \t\n"), "a b");
    assert_eq!(trim("abc"), "abc");
    assert_eq!(trim(""), "");
    assert_eq!(trim(" \t \r\n"), "");
    assert_eq!(trim("\u{a0}x\u{3000}"), "x");
    assert_eq!(trim("\u{200b}x"), "\u{200b}x");
}

#[test]
fn trim_agrees_with_std() {
    for s in ["", " ", "a", " a", "a ", "\u{2003}é \u{1680}", "\u{85}\u{2028}z\u{2029}\u{202f}\u{205f}", "\u{180e}a"] {
        assert_eq!(trim(s), s.trim());
    }
}

#[test]
fn whitespace_is_the_unicode_property() {
    for code in 0u32..0x3100 {
        if let Some(c) = char::from_u32(code) {
            assert_eq!(char_is_whitespace(c), c.is_whitespace(), "U+{:04X}", code);
        }
    }
}

#[test]
fn chars_of_copies_every_character() {
    assert_eq!(chars_of("aé\u{1F600}"), vec!['a', 'é', '\u{1F600}']);
    assert!(chars_of("").is_empty());
}

#[test]
fn same_text_and_starts_with() {
    assert!(same_text("abc", "abc"));
    assert!(!same_text("abc", "abd"));
    assert!(!same_text("abc", "ab"));
    assert!(same_text("", ""));
    assert!(starts_with("IP4.DNS[1]:1.1.1.1", "IP4.DNS"));
    assert!(!starts_with("IP4", "IP4.DNS"));
    assert!(!starts_with("XP4.DNS", "IP4.DNS"));
    assert!(starts_with("anything", ""));
}

#[test]
fn split_keeps_empty_pieces() {
    assert_eq!(split("a:b", ':'), vec!["a", "b"]);
    assert_eq!(split("", ':'), vec![""]);
    assert_eq!(split(":", ':'), vec!["", ""]);
    assert_eq!(split("a::b:", ':'), vec!["a", "", "b", ""]);
    assert_eq!(split("abc", ':'), vec!["abc"]);
    for s in ["", "a", ":a", "a:", "::", "é:ü:"] {
        let expected: Vec<&str> = s.split(':').collect();
        assert_eq!(split(s, ':'), expected);
    }
}

#[test]
fn lines_end_at_line_feeds() {
    assert_eq!(lines("a\nb"), vec!["a", "b"]);
    assert_eq!(lines("a\nb\n"), vec!["a", "b"]);
    assert_eq!(lines("a\r\nb\r\n"), vec!["a", "b"]);
    assert_eq!(lines("a\n\nb"), vec!["a", "", "b"]);
    assert!(lines("").is_empty());
    assert_eq!(lines("\n"), vec![""]);
    assert_eq!(lines("a\r"), vec!["a\r"]);
    assert_eq!(lines("a\rb\n"), vec!["a\rb"]);
    for s in ["", "\n", "\r\n", "x", "x\r", "x\r\r\ny", "\n\n", "a\nb\r"] {
        let expected: Vec<&str> = s.lines().collect();
        assert_eq!(lines(s), expected, "{:?}", s);
    }
}

#[test]
fn split_whitespace_keeps_words_only() {
    assert_eq!(split_whitespace("  a  b\tc\n"), vec!["a", "b", "c"]);
    assert!(split_whitespace("").is_empty());
    assert!(split_whitespace(" \t ").is_empty());
    assert_eq!(split_whitespace("one"), vec!["one"]);
    for s in ["", "a", " a", "a ", "a\u{a0}b", "10.0.0.1 dev eth0 lladdr aa:bb REACHABLE"] {
        let expected: Vec<&str> = s.split_whitespace().collect();
        assert_eq!(split_whitespace(s), expected);
    }
}

#[test]
fn parse_u8_accepts_what_std_accepts() {
    assert_eq!(parse_u8("0"), Some(0));
    assert_eq!(parse_u8("80"), Some(80));
    assert_eq!(parse_u8("255"), Some(255));
    assert_eq!(parse_u8("256"), None);
    assert_eq!(parse_u8("+7"), Some(7));
    assert_eq!(parse_u8("007"), Some(7));
    assert_eq!(parse_u8(""), None);
    assert_eq!(parse_u8("+"), None);
    assert_eq!(parse_u8("-1"), None);
    assert_eq!(parse_u8(" 1"), None);
    assert_eq!(parse_u8("1 "), None);
    assert_eq!(parse_u8("1a"), None);
    assert_eq!(parse_u8("++1"), None);
    assert_eq!(parse_u8("99999999999999999999999"), None);
    for s in ["0", "255", "256", "+0", "-0", "", "+", "12", "٣"] {
        assert_eq!(parse_u8(s), s.parse::<u8>().ok(), "{:?}", s);
    }
}

#[test]
fn parse_unsigned_respects_the_bound() {
    assert_eq!(parse_unsigned("2412", 65535), Some(2412));
    assert_eq!(parse_unsigned("65535", 65535), Some(65535));
    assert_eq!(parse_unsigned("65536", 65535), None);
    assert_eq!(parse_unsigned("2412 MHz", 65535), None);
    assert_eq!(parse_unsigned("10", 9), None);
    assert_eq!(parse_unsigned("9", 9), Some(9));
    assert_eq!(parse_unsigned("4294967295", u32::MAX), Some(u32::MAX));
    assert_eq!(parse_unsigned("4294967296", u32::MAX), None);
}

#[test]
fn decimal_text_writes_base_ten() {
    assert_eq!(decimal_text(0), "0");
    assert_eq!(decimal_text(7), "7");
    assert_eq!(decimal_text(10), "10");
    assert_eq!(decimal_text(255), "255");
    assert_eq!(decimal_text(2412), "2412");
    assert_eq!(decimal_text(u32::MAX), "4294967295");
}

#[test]
fn remove_all_takes_out_every_occurrence() {
    assert_eq!(remove_all("MgmtIP:   10.0.0.1", "MgmtIP:"), "   10.0.0.1");
    assert_eq!(remove_all("aXbXc", "X"), "abc");
    assert_eq!(remove_all("aaa", "aa"), "a");
    assert_eq!(remove_all("abc", ""), "abc");
    assert_eq!(remove_all("", "x"), "");
    assert_eq!(remove_all("xx", "xx"), "");
    assert_eq!(remove_all("ab", "abc"), "ab");
    for (s, p) in [("ababa", "aba"), ("éaé", "é"), ("abcabc", "bc")] {
        assert_eq!(remove_all(s, p), s.replace(p, ""));
    }
}

#[test]
fn join_puts_the_separator_between_parts() {
    assert_eq!(join(&vec![], ", "), "");
    assert_eq!(join(&vec!["a".to_string()], ", "), "a");
    assert_eq!(join(&vec!["a".to_string(), "b".to_string(), "".to_string()], ", "), "a, b, ");
}

#[test]
fn order_of_is_the_order_of_str() {
    assert_eq!(order_of("a", "b"), -1);
    assert_eq!(order_of("b", "a"), 1);
    assert_eq!(order_of("a", "a"), 0);
    assert_eq!(order_of("", ""), 0);
    assert_eq!(order_of("", "a"), -1);
    assert_eq!(order_of("ab", "a"), 1);
    assert_eq!(order_of("B", "a"), -1);
    for (a, b) in [("é", "z"), ("Z", "a"), ("abc", "abd"), ("\u{1F600}", "\u{FFFF}"), ("same", "same")] {
        let expected = match a.cmp(b) {
            std::cmp::Ordering::Less => -1,
            std::cmp::Ordering::Equal => 0,
            std::cmp::Ordering::Greater => 1,
        };
        assert_eq!(order_of(a, b), expected);
    }
}
