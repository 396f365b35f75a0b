use myeon::text::{is_whitespace, wrap_text};

#[test]
fn wraps_between_words() {
    assert_eq!(wrap_text("hello world foo", 11), "hello world\nfoo");
    assert_eq!(wrap_text("hello world foo", 5), "hello\nworld\nfoo");
}

#[test]
fn long_word_takes_own_line() {
    assert_eq!(wrap_text("abcdefghij xy", 4), "abcdefghij\nxy");
    assert_eq!(wrap_text("xy abcdefghij", 4), "xy\nabcdefghij");
}

#[test]
fn whitespace_runs_collapse() {
    assert_eq!(wrap_text("  a   b\t\nc  ", 10), "a b c");
    assert_eq!(wrap_text("a\u{3000}b", 10), "a b");
    assert_eq!(wrap_text("   ", 10), "");
}

#[test]
fn zero_width_or_empty_text_unchanged() {
    assert_eq!(wrap_text("a  b", 0), "a  b");
    assert_eq!(wrap_text("", 7), "");
}

#[test]
fn counts_characters_not_bytes() {
    assert_eq!(wrap_text("héé ñañ", 7), "héé ñañ");
    assert_eq!(wrap_text("héé ñañ", 6), "héé\nñañ");
}

#[test]
fn whitespace_class() {
    for c in [' ', '\t', '\n', '\r', '\u{0b}', '\u{0c}', '\u{85}', '\u{a0}', '\u{2003}', '\u{3000}'] {
        assert!(is_whitespace(c));
        assert!(c.is_whitespace());
    }
    for c in ['a', '0', '\u{200b}', '_'] {
        assert!(!is_whitespace(c));
        assert!(!c.is_whitespace());
    }
}
