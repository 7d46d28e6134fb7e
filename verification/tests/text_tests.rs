use metasearch_core::text::{decimal_string, is_space, is_unreserved, percent_encoded, trimmed};

#[test]
fn trim_removes_leading_and_trailing_whitespace() {
    assert_eq!(trimmed("  Title One \n"), "Title One");
    assert_eq!(trimmed("\t\r\n desc \u{a0}"), "desc");
    assert_eq!(trimmed("unchanged"), "unchanged");
    assert_eq!(trimmed(""), "");
    assert_eq!(trimmed(" \n\t "), "");
}

#[test]
fn trim_keeps_inner_whitespace() {
    assert_eq!(trimmed("  a  b  "), "a  b");
    assert_eq!(trimmed("\nfirst line\nsecond line\n"), "first line\nsecond line");
}

#[test]
fn trim_is_idempotent_on_examples() {
    for s in ["  x ", "x", "", " a b "] {
        let once = trimmed(s);
        let twice = trimmed(once.as_str());
        assert_eq!(once, twice);
    }
}

#[test]
fn space_recognition_matches_the_unicode_set() {
    for c in [' ', '\t', '\n', '\r', '\u{a0}', '\u{2003}', '\u{3000}'] {
        assert!(is_space(c));
        assert!(c.is_whitespace());
    }
    for c in ['a', '0', '-', '_', '\u{200b}'] {
        assert!(!is_space(c));
        assert!(!c.is_whitespace());
    }
}

#[test]
fn decimal_rendering_matches_standard_formatting() {
    assert_eq!(decimal_string(0), "0");
    assert_eq!(decimal_string(7), "7");
    assert_eq!(decimal_string(10), "10");
    assert_eq!(decimal_string(20406), "20406");
    assert_eq!(decimal_string(u32::MAX), "4294967295");
    for n in [0u32, 1, 9, 99, 100, 65535] {
        assert_eq!(decimal_string(n), format!("{}", n));
    }
}

#[test]
fn unreserved_characters_encode_to_themselves() {
    assert_eq!(percent_encoded("AZaz09-._~"), "AZaz09-._~");
    for c in ['A', 'z', '5', '-', '.', '_', '~'] {
        assert!(is_unreserved(c));
    }
    for c in [' ', '&', '#', '=', '/', '?', '%'] {
        assert!(!is_unreserved(c));
    }
}

#[test]
fn reserved_and_multibyte_characters_are_escaped() {
    assert_eq!(percent_encoded(""), "");
    assert_eq!(percent_encoded(" "), "%20");
    assert_eq!(percent_encoded("a&b=c"), "a%26b%3Dc");
    // 2-, 3- and 4-byte UTF-8 sequences, one escape per byte.
    assert_eq!(percent_encoded("caf\u{e9}"), "caf%C3%A9");
    assert_eq!(percent_encoded("\u{20ac}"), "%E2%82%AC");
    assert_eq!(percent_encoded("\u{1d11e}"), "%F0%9D%84%9E");
}
