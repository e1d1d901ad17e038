use cyberdeck::text::{
    contains_str, eq_ignore_ascii_case, i32_to_decimal, is_whitespace, parse_u16_str,
    split_lines, split_whitespace, trim_str, u64_to_decimal,
};

#[test]
fn whitespace_matches_std() {
    for c in (0u32..0x3100).filter_map(char::from_u32) {
        assert_eq!(is_whitespace(c), c.is_whitespace(), "{c:?}");
    }
}

#[test]
fn trim_matches_std() {
    for s in ["", "  ", " a b ", "\u{3000}x\u{85}", "\t\r\n"] {
        assert_eq!(trim_str(s), s.trim());
    }
}

#[test]
fn words_and_lines_match_std() {
    for s in ["", "a", " a  b\tc ", "\n\nx\r\ny\r", "a\r\n", "a\n\n"] {
        let w: Vec<String> = s.split_whitespace().map(String::from).collect();
        assert_eq!(split_whitespace(s), w);
        let l: Vec<String> = s.lines().map(String::from).collect();
        assert_eq!(split_lines(s), l, "{s:?}");
    }
}

#[test]
fn u16_parse_matches_std() {
    for s in ["", "+", "0", "+22", "65535", "65536", "-1", "00022", " 1", "1a", "999999999999"] {
        assert_eq!(parse_u16_str(s), s.parse::<u16>().ok(), "{s:?}");
    }
}

#[test]
fn decimal_and_case() {
    assert_eq!(u64_to_decimal(0), "0");
    assert_eq!(u64_to_decimal(18446744073709551615), "18446744073709551615");
    assert_eq!(i32_to_decimal(i32::MIN), i32::MIN.to_string());
    assert!(eq_ignore_ascii_case("Host", "hOST"));
    assert!(!eq_ignore_ascii_case("Host", "Hosts"));
    assert!(contains_str("abcabd", "abd"));
    assert!(!contains_str("ab", "abc"));
    assert!(contains_str("x", ""));
}
