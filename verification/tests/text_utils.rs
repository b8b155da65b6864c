use llama_launch::text::{chars_of, is_space_char, text_eq, trim_text};

#[test]
fn trim_removes_surrounding_whitespace() {
    assert_eq!(trim_text("  a b \t\n"), "a b");
    assert_eq!(trim_text("abc"), "abc");
    assert_eq!(trim_text("   "), "");
    assert_eq!(trim_text(""), "");
}

#[test]
fn trim_knows_unicode_whitespace() {
    assert_eq!(trim_text("\u{3000}\u{a0}x y\u{85}\u{2029}"), "x y");
    assert_eq!(trim_text("\u{200b}x"), "\u{200b}x");
}

#[test]
fn trim_agrees_with_std() {
    for s in ["  x ", "\u{1680}q\u{202f}", "\u{b}a\u{c}", "mid dle", "\u{205f}\u{2000}\u{200a}"] {
        assert_eq!(trim_text(s), s.trim());
    }
}

#[test]
fn whitespace_characters_match_std() {
    for c in ['\u{0}', '\u{9}', '\u{d}', '\u{e}', ' ', '\u{85}', '\u{a0}', '\u{1680}', '\u{2000}', '\u{200a}',
        '\u{200b}', '\u{2028}', '\u{2029}', '\u{202f}', '\u{205f}', '\u{3000}', 'a', '\u{feff}'] {
        assert_eq!(is_space_char(c), c.is_whitespace(), "{:?}", c);
    }
}

#[test]
fn text_equality() {
    assert!(text_eq("abc", "abc"));
    assert!(!text_eq("abc", "abd"));
    assert!(!text_eq("ab", "abc"));
    assert!(text_eq("", ""));
}

#[test]
fn chars_in_order() {
    assert_eq!(chars_of("añb"), vec!['a', 'ñ', 'b']);
}
