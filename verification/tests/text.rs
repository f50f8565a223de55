use backend::text::{blank, char_count, joined, push_decimal, trimmed};

#[test]
fn trimming_follows_unicode_whitespace() {
    assert_eq!(trimmed("  a b \t\n"), "a b");
    assert_eq!(trimmed("\u{3000}x\u{a0}"), "x");
    assert_eq!(trimmed("\u{200b}x"), "\u{200b}x");
    assert_eq!(trimmed("   "), "");
    assert!(blank(" \r\n\u{2028}"));
    assert!(!blank(" . "));
}

#[test]
fn counting_and_building_strings() {
    assert_eq!(char_count("héllo"), 5);
    assert_eq!(joined("ab", "ç"), "abç");
    let mut s = "n=".to_owned();
    push_decimal(&mut s, 1234567890123);
    assert_eq!(s, "n=1234567890123");
}
