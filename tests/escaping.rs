use std::borrow::Cow;

use zoog::escaping::{escape_str, unescape_str, EscapeDecodeError};

fn is_safe(value: &str) -> bool {
    // Escaped strings may still contain the escape character so we don't include it
    !value.contains(&['\0', '\n', '\r'])
}

#[test]
fn escape_non_special() {
    let original = "The quick brown fox jumps over the lazy dog";
    assert!(is_safe(original));

    let escaped = escape_str(original);
    assert!(is_safe(&escaped));
    assert!(matches!(escaped, Cow::Borrowed(_)));
    assert_eq!(original, escaped);

    let unescaped = unescape_str(&escaped).expect("Unable to unescape string");
    assert!(matches!(unescaped, Cow::Borrowed(_)));
    assert_eq!(original, unescaped);
}

#[test]
fn escape_special() {
    let original = "\0\n\r\\";
    assert!(!is_safe(&original));

    let escaped = escape_str(original);
    assert!(is_safe(&escaped));
    assert!(matches!(escaped, Cow::Owned(_)));
    assert_eq!(escaped, "\\0\\n\\r\\\\");

    let unescaped = unescape_str(&escaped).expect("Unable to reverse escaping");
    assert!(matches!(unescaped, Cow::Owned(_)));
    assert_eq!(original, unescaped);
}

#[test]
fn escaping_special_by_char() {
    // Pick up bugs in detecting if strings need to be escaped by testing each
    // escaped character individually
    for c in ['\0', '\n', '\r', '\\'].iter() {
        let original = c.to_string();

        let escaped = escape_str(&original);
        assert_eq!(escaped.len(), 2);
        assert!(is_safe(&escaped));
        assert!(matches!(escaped, Cow::Owned(_)));

        let unescaped = unescape_str(&escaped).expect("Unable to reverse escaping");
        assert!(matches!(unescaped, Cow::Owned(_)));
        assert_eq!(original, unescaped);
    }
}

#[test]
fn unescape_errors() {
    assert_eq!(unescape_str("abc\\").unwrap_err(), EscapeDecodeError::TrailingBackSlash);
    assert_eq!(unescape_str("a\\qb").unwrap_err(), EscapeDecodeError::InvalidEscape('q'));
    assert_eq!(unescape_str("\\x\\").unwrap_err(), EscapeDecodeError::InvalidEscape('x'));
}

#[test]
fn escape_round_trip_mixed() {
    let original = "line one\nline\\two\r\0 caf\u{e9}";
    let escaped = escape_str(original);
    assert!(is_safe(&escaped));
    assert_eq!(escaped, "line one\\nline\\\\two\\r\\0 caf\u{e9}");
    assert_eq!(unescape_str(&escaped).unwrap(), original);
}
