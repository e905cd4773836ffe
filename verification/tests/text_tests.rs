use ferroclaw::text::{
    i64_to_decimal, join_strings, pad_right_str, repeat_char, split_lines, str_eq_ignore_ascii_case,
    trim_end_matches_char, trim_end_matches_str, trim_str, u64_to_decimal, usize_to_decimal,
};

#[test]
fn decimal_rendering_matches_display() {
    for n in [0u64, 7, 10, 1234, 9_999_999, u64::MAX] {
        assert_eq!(u64_to_decimal(n), n.to_string());
    }
    assert_eq!(usize_to_decimal(20), "20");
    for i in [0i64, -1, 42, -305, i64::MIN, i64::MAX] {
        assert_eq!(i64_to_decimal(i), i.to_string());
    }
}

#[test]
fn trim_removes_unicode_whitespace() {
    assert_eq!(trim_str("  hello \t\n"), "hello");
    assert_eq!(trim_str("\u{3000}\u{a0}mid dle\u{2009}"), "mid dle");
    assert_eq!(trim_str("   "), "");
    assert_eq!(trim_str(""), "");
    for s in ["  a b ", "\r\nx\r\n", "\u{85}y", "z"] {
        assert_eq!(trim_str(s), s.trim());
    }
}

#[test]
fn trim_end_matches_strips_every_copy() {
    assert_eq!(trim_end_matches_char("http://h///", '/'), "http://h");
    assert_eq!(trim_end_matches_str("http://h/v1/v1", "/v1"), "http://h");
    assert_eq!(trim_end_matches_str("http://h/v2", "/v1"), "http://h/v2");
}

#[test]
fn padding_repetition_and_joining() {
    assert_eq!(pad_right_str("ab", 5), "ab   ");
    assert_eq!(pad_right_str("abcdef", 3), "abcdef");
    assert_eq!(pad_right_str("é", 3), format!("{:<3}", "é"));
    assert_eq!(repeat_char('-', 4), "----");
    let parts = vec!["a".to_string(), "b".to_string(), "c".to_string()];
    assert_eq!(join_strings(&parts, ", "), "a, b, c");
    assert_eq!(join_strings(&Vec::new(), ", "), "");
}

#[test]
fn ascii_case_insensitive_comparison() {
    assert!(str_eq_ignore_ascii_case("OLLama", "ollama"));
    assert!(!str_eq_ignore_ascii_case("ollamas", "ollama"));
    assert!(!str_eq_ignore_ascii_case("Ä", "ä"));
}

#[test]
fn lines_follow_str_lines() {
    for s in ["foo\r\nbar\n\nbaz\r", "", "a\n", "\n", "one", "x\r\n", "a\n\rb"] {
        let ours = split_lines(s);
        let expected: Vec<String> = s.lines().map(|l| l.to_string()).collect();
        assert_eq!(ours, expected, "input {:?}", s);
    }
}
