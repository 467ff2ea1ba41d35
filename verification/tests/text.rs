use whittle::text::{
    eq_ignore_ascii_case, join, lines, replace_literal, split_whitespace, str_eq, trim, trim_end,
    unescape, usize_to_string,
};

#[test]
fn unescape_decodes_literal_backslash_n() {
    assert_eq!(unescape("a\\nb"), "a\nb");
}

#[test]
fn unescape_leaves_real_newlines_alone() {
    assert_eq!(unescape("a\nb"), "a\nb");
}

#[test]
fn replace_literal_matches_str_replace() {
    for (s, from, to) in [
        ("a/b/c", "/", "-"),
        ("aaaa", "aa", "b"),
        ("ab", "", "x"),
        ("", "", "x"),
        ("foo here", "foo", "FOO"),
        ("bump 1.2.3", ".", ""),
        ("abc", "abcd", "z"),
    ] {
        assert_eq!(replace_literal(s, from, to), s.replace(from, to), "{s:?} {from:?} {to:?}");
    }
}

#[test]
fn lines_match_str_lines() {
    for s in ["", "a", "a\n", "a\r\nb", "a\n\nb\n", "\n", "x\r", "a\rb\n", "a\n\r\n"] {
        let expected: Vec<String> = s.lines().map(str::to_string).collect();
        assert_eq!(lines(s), expected, "{s:?}");
    }
}

#[test]
fn split_whitespace_matches_std() {
    for s in ["", "  ", "a b", "  a\t\tb \n c  ", "caf\u{e9} x\u{2003}y"] {
        let expected: Vec<String> = s.split_whitespace().map(str::to_string).collect();
        assert_eq!(split_whitespace(s), expected, "{s:?}");
    }
}

#[test]
fn trims_match_std() {
    for s in ["", "  a b  ", "\u{3000}x\u{85}", "\n\t"] {
        assert_eq!(trim(s), s.trim());
        assert_eq!(trim_end(s), s.trim_end());
    }
}

#[test]
fn ascii_case_and_equality() {
    assert!(eq_ignore_ascii_case("FEAT", "feat"));
    assert!(!eq_ignore_ascii_case("feat", "feats"));
    assert!(!eq_ignore_ascii_case("\u{c9}", "\u{e9}"));
    assert!(str_eq("abc", "abc"));
    assert!(!str_eq("abc", "abd"));
}

#[test]
fn numbers_and_joins() {
    assert_eq!(usize_to_string(0), "0");
    assert_eq!(usize_to_string(72), "72");
    assert_eq!(usize_to_string(1234567), "1234567");
    assert_eq!(join(&["a".to_string(), "b".to_string()], ", "), "a, b");
    assert_eq!(join(&[], ", "), "");
}
