use crabcut::codec::{hash_long_url, validate_alias};

#[test]
fn alias_of_letters_and_digits_is_valid() {
    assert!(validate_alias("abc123"));
    assert!(validate_alias("ABCxyz019"));
    assert!(validate_alias("Z"));
}

#[test]
fn empty_alias_passes_validation() {
    assert!(validate_alias(""));
}

#[test]
fn alias_of_sixteen_characters_is_valid() {
    assert!(validate_alias("abcdefghij123456"));
}

#[test]
fn alias_of_seventeen_characters_is_invalid() {
    assert!(!validate_alias("abcdefghij1234567"));
}

#[test]
fn alias_with_punctuation_is_invalid() {
    assert!(!validate_alias("abc-123"));
    assert!(!validate_alias("abc 123"));
    assert!(!validate_alias("abc_123"));
    assert!(!validate_alias("a!b"));
}

#[test]
fn alias_with_non_ascii_characters_is_invalid() {
    assert!(!validate_alias("caf\u{e9}"));
    assert!(!validate_alias("\u{3000}"));
}

#[test]
fn derived_code_is_deterministic() {
    let a = hash_long_url("https://example.com/a");
    let b = hash_long_url("https://example.com/a");
    assert_eq!(a, b);
}

#[test]
fn derived_code_has_eight_base64url_characters() {
    let code = hash_long_url("https://www.rust-lang.org/");
    assert_eq!(code.chars().count(), 8);
    assert!(code.chars().all(|c| c.is_ascii_alphanumeric() || c == '-' || c == '_'));
}

#[test]
fn derived_code_matches_truncated_digest() {
    assert_eq!(hash_long_url("https://example.com/a"), "Lc4KTFBE");
    assert_eq!(hash_long_url("https://example.com"), "EAaArVRs");
    assert_eq!(hash_long_url("https://www.rust-lang.org/"), "Cm5swgya");
}

#[test]
fn different_urls_generally_derive_different_codes() {
    assert_ne!(
        hash_long_url("https://example.com/a"),
        hash_long_url("https://example.com/b")
    );
}
