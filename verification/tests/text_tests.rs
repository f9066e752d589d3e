//! Behavior of the text helpers the cache keys and report texts are built
//! from.

use tock_ui::text::{is_blank, join_strings, str_contains, str_starts_with};

#[test]
fn blank_means_whitespace_only() {
    assert!(is_blank(""));
    assert!(is_blank(" \t\r\n  "));
    assert!(!is_blank(" x "));
    assert!(!is_blank("words"));
}

#[test]
fn substring_search() {
    assert!(str_contains("hello world", "lo wo"));
    assert!(str_contains("hello", "hello"));
    assert!(str_contains("hello", ""));
    assert!(!str_contains("hello", "hello!"));
    assert!(!str_contains("abc", "ac"));
}

#[test]
fn prefix_check() {
    assert!(str_starts_with("https://example.test", "https://"));
    assert!(str_starts_with("anything", ""));
    assert!(!str_starts_with("http", "https"));
    assert!(!str_starts_with("ftp://x", "http://"));
}

#[test]
fn joining_with_a_separator() {
    let parts: Vec<String> = vec!["a".to_string(), "b".to_string(), "c".to_string()];
    assert_eq!(join_strings(&parts, ", "), "a, b, c");
    assert_eq!(join_strings(&vec!["only".to_string()], "--"), "only");
    assert_eq!(join_strings(&Vec::new(), " "), "");
}
