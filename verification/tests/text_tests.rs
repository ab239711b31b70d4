use rustling::text::{
    chars_of, contains_chars, decimal_string, join_strings, same_text, split_chars,
    starts_with_chars, take_chars, trim_end_matching, trimmed,
};

fn s(v: &[char]) -> String {
    v.iter().collect()
}

#[test]
fn trimming_removes_unicode_whitespace() {
    assert_eq!(s(&trimmed(&chars_of(" \t a b \u{2028}"))), "a b");
    assert_eq!(s(&trimmed(&chars_of("   "))), "");
    assert_eq!(s(&trimmed(&chars_of("x"))), "x");
}

#[test]
fn splitting_keeps_empty_pieces() {
    let pieces: Vec<String> = split_chars(&chars_of("a,,b,"), ',').iter().map(|p| s(p)).collect();
    assert_eq!(pieces, vec!["a", "", "b", ""]);
    let pieces: Vec<String> = split_chars(&chars_of(""), ',').iter().map(|p| s(p)).collect();
    assert_eq!(pieces, vec![""]);
}

#[test]
fn substring_search() {
    assert!(contains_chars(&chars_of("hello world"), &chars_of("o w")));
    assert!(contains_chars(&chars_of("abc"), &chars_of("")));
    assert!(!contains_chars(&chars_of("ab"), &chars_of("abc")));
    assert!(!contains_chars(&chars_of("abcabd"), &chars_of("abe")));
}

#[test]
fn prefixes_and_trailing_characters() {
    assert!(starts_with_chars(&chars_of("https://x"), &chars_of("http")));
    assert!(!starts_with_chars(&chars_of("urn:x"), &chars_of("http")));
    assert_eq!(s(&trim_end_matching(&chars_of("https://a.b///"), '/')), "https://a.b");
}

#[test]
fn decimals_takes_and_joins() {
    assert_eq!(decimal_string(0), "0");
    assert_eq!(decimal_string(7), "7");
    assert_eq!(decimal_string(1050), "1050");
    assert_eq!(take_chars("héllo", 2), "hé");
    assert_eq!(take_chars("hi", 10), "hi");
    let parts = vec!["a".to_string(), "b".to_string(), "c".to_string()];
    assert_eq!(join_strings(&parts, "\n"), "a\nb\nc");
    assert_eq!(join_strings(&[], "-"), "");
    assert!(same_text("x", "x"));
    assert!(!same_text("x", "xy"));
}
