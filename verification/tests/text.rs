use paladin::text::{
    chars_of, contains_char, contains_str, decimal_string, ends_with_char, is_blank, join_strings,
    nonblank_lines_of, str_eq, take_prefix, trim_end_char, trim_start_matches, trim_str,
};

#[test]
fn trim_matches_std() {
    for s in ["", "  ", " a ", "\u{3000}x\u{a0}", "\t\nab c\r\n", "abc", "\u{2028} z"] {
        assert_eq!(trim_str(s), s.trim(), "{s:?}");
        assert_eq!(is_blank(s), s.trim().is_empty());
    }
}

#[test]
fn trim_start_matches_std() {
    for s in ["- - a", "-a", "- ", "- - ", "x - y", ""] {
        assert_eq!(trim_start_matches(s, "- "), s.trim_start_matches("- "), "{s:?}");
    }
    assert_eq!(trim_start_matches("aaa", ""), "aaa");
}

#[test]
fn trim_end_char_std() {
    for s in ["http://x/", "http://x///", "/", "", "a/b"] {
        assert_eq!(trim_end_char(s, '/'), s.trim_end_matches('/'));
    }
}

#[test]
fn prefix_and_chars() {
    assert_eq!(take_prefix("héllo", 2), "hé");
    assert_eq!(take_prefix("hi", 10), "hi");
    assert_eq!(chars_of("aé"), vec!['a', 'é']);
}

#[test]
fn joins_and_lines() {
    let v = vec!["a".to_string(), "b".to_string(), "c".to_string()];
    assert_eq!(join_strings(&v, ", "), "a, b, c");
    assert_eq!(join_strings(&Vec::new(), ", "), "");
    assert_eq!(nonblank_lines_of(" a \n\n b\r\nc"), vec!["a", "b", "c"]);
    assert_eq!(nonblank_lines_of("x\n"), vec!["x"]);
}

#[test]
fn searching() {
    assert!(contains_str("the model failed to load now", "model failed to load"));
    assert!(!contains_str("model failed", "model failed to load"));
    assert!(contains_str("abc", ""));
    assert!(contains_char("a b", ' '));
    assert!(!contains_char("ab", ' '));
    assert!(ends_with_char("done.", '.'));
    assert!(!ends_with_char("", '.'));
    assert!(str_eq("ab", "ab"));
    assert!(!str_eq("ab", "abc"));
}

#[test]
fn decimals() {
    assert_eq!(decimal_string(0), "0");
    assert_eq!(decimal_string(7), "7");
    assert_eq!(decimal_string(10), "10");
    assert_eq!(decimal_string(20_000), "20000");
    assert_eq!(decimal_string(usize::MAX), usize::MAX.to_string());
}
