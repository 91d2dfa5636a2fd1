use pw_splitter::text::{contains_substring, join_with, u64_to_string};

#[test]
fn decimal_rendering_exact() {
    assert_eq!(u64_to_string(0), "0");
    assert_eq!(u64_to_string(9), "9");
    assert_eq!(u64_to_string(10), "10");
    assert_eq!(u64_to_string(40961), "40961");
    assert_eq!(u64_to_string(u64::MAX), "18446744073709551615");
}

#[test]
fn substring_search() {
    assert!(contains_substring("failed: File exists", "File exists"));
    assert!(contains_substring("abc", ""));
    assert!(contains_substring("abc", "abc"));
    assert!(contains_substring("aab", "ab"));
    assert!(!contains_substring("abc", "abcd"));
    assert!(!contains_substring("", "a"));
    assert!(!contains_substring("abd", "bc"));
}

#[test]
fn joining_with_separator() {
    assert_eq!(join_with("node", ":", "port"), "node:port");
    assert_eq!(join_with("", "/", ""), "/");
}
