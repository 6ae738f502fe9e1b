use password_store::text::contains_substring;

#[test]
fn substring_containment_cases() {
    assert!(contains_substring("protected", "ted"));
    assert!(!contains_substring("abcdef", "ted"));
    assert!(contains_substring("anything", ""));
    assert!(contains_substring("abc", "abc"));
    assert!(!contains_substring("ab", "abc"));
    assert!(contains_substring("entry name", "y n"));
    // Case-sensitive: no normalization.
    assert!(!contains_substring("Protected", "pro"));
    assert!(contains_substring("ключ-🔑-here", "🔑"));
}
