use logen::base::seed::normalize_input;

#[test]
fn test_normalize_trims_whitespace() {
    assert_eq!(normalize_input("  hello  "), "hello");
}

#[test]
fn test_normalize_collapses_whitespace() {
    assert_eq!(normalize_input("hello    world"), "hello world");
}

#[test]
fn test_normalize_multiple_types_whitespace() {
    assert_eq!(normalize_input("hello\t\n  \r\nworld"), "hello world");
}

#[test]
fn test_normalize_preserves_special_chars() {
    assert_eq!(normalize_input("Acmeâ„¢ CorpÂ®"), "Acmeâ„¢ CorpÂ®");
}

#[test]
fn test_normalize_preserves_unicode() {
    assert_eq!(normalize_input("CafÃ© â˜• SociÃ©tÃ©"), "CafÃ© â˜• SociÃ©tÃ©");
}

#[test]
fn test_normalize_empty() {
    assert_eq!(normalize_input(""), "");
}

#[test]
fn test_normalize_whitespace_only() {
    assert_eq!(normalize_input("   \t\n  "), "");
}

#[test]
fn test_normalize_mixed_punctuation() {
    assert_eq!(normalize_input("Hello, World!"), "Hello, World!");
}

#[test]
fn test_normalize_leading_trailing_mixed() {
    assert_eq!(normalize_input("\n\t  Test  \r\n"), "Test");
}

#[test]
fn test_normalize_numbers_preserved() {
    assert_eq!(normalize_input("  Test 123  "), "Test 123");
}

#[test]
fn test_normalize_emoji() {
    assert_eq!(normalize_input("Hello ğŸ‘‹ World ğŸŒ"), "Hello ğŸ‘‹ World ğŸŒ");
}

#[test]
fn test_normalize_consecutive_spaces() {
    assert_eq!(normalize_input("a     b     c"), "a b c");
}

#[test]
fn normalize_spec_examples() {
    assert_eq!(normalize_input("  hello   world  "), "hello world");
    assert_eq!(normalize_input("   "), "");
}

#[test]
fn normalize_unicode_whitespace() {
    assert_eq!(normalize_input("\u{3000}a\u{00A0}\u{2003}b\u{2028}"), "a b");
}
