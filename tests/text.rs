use pg_nlp::text::{is_blank_char, trim};

#[test]
fn trims_surrounding_white_space() {
    assert_eq!(trim(" hello \n"), "hello");
    assert_eq!(trim("\t\u{a0}hallo welt\u{3000}"), "hallo welt");
    assert_eq!(trim("inner  space"), "inner  space");
    assert_eq!(trim(""), "");
    assert_eq!(trim(" \u{2028}\u{85} "), "");
}

#[test]
fn trims_like_std() {
    for s in ["  a b  ", "\u{1680}x\u{200a}", "\u{200b}x\u{200b}", "ünï ", "\r\n\u{b}z\u{c}"] {
        assert_eq!(trim(s), s.trim());
    }
}

#[test]
fn blank_chars_follow_unicode() {
    for c in ['\t', '\n', '\u{b}', '\u{c}', '\r', ' ', '\u{85}', '\u{a0}', '\u{1680}', '\u{2000}', '\u{200a}', '\u{2028}', '\u{2029}', '\u{202f}', '\u{205f}', '\u{3000}'] {
        assert!(is_blank_char(c));
        assert!(c.is_whitespace());
    }
    for c in ['a', '\u{200b}', '\u{feff}', '\u{180e}', '_', '\0'] {
        assert!(!is_blank_char(c));
        assert!(!c.is_whitespace());
    }
}
