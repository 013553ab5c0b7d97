use webp_converter::text::{decimal_string, is_whitespace, lower};

#[test]
fn whitespace_matches_char_is_whitespace() {
    for c in (0u32..=0x10ffff).filter_map(char::from_u32) {
        assert_eq!(is_whitespace(c), c.is_whitespace(), "{:?}", c);
    }
}

#[test]
fn lower_agrees_with_to_lowercase_on_ascii_words() {
    // Either both give the same single character, or neither lowercase is
    // plain ASCII (so neither can match an ASCII word).
    for c in (0u32..=0x10ffff).filter_map(char::from_u32) {
        let std_lower: Vec<char> = c.to_lowercase().collect();
        let l = lower(c);
        if std_lower == vec![l] {
            continue;
        }
        assert!(!l.is_ascii(), "{:?}", c);
        assert!(std_lower.iter().any(|x| !x.is_ascii()), "{:?}", c);
    }
}

#[test]
fn decimal_rendering_matches_to_string() {
    for n in [0u32, 1, 9, 10, 11, 99, 100, 101, 1080, 65535, 1_000_000, u32::MAX - 1, u32::MAX] {
        assert_eq!(decimal_string(n), n.to_string());
    }
}
