use mdview::text::{
    chars_of, contains_char, contains_str, decimal_string, join_strings, replace_str, str_eq,
    to_lowercase,
};

#[test]
fn chars_in_order() {
    assert_eq!(chars_of("a\u{4e2d}b"), vec!['a', '\u{4e2d}', 'b']);
}

#[test]
fn substring_search() {
    assert!(contains_str("notosanssc-regular", "notosanssc"));
    assert!(contains_str("abc", ""));
    assert!(contains_str("", ""));
    assert!(!contains_str("ab", "abc"));
    assert!(contains_str("aab", "ab"));
    assert!(!contains_str("a b", "ab"));
}

#[test]
fn char_search() {
    assert!(contains_char("Noto Sans", ' '));
    assert!(!contains_char("Roboto", ' '));
}

#[test]
fn replace_left_to_right() {
    assert_eq!(replace_str("aaa", "aa", "b"), "ba");
    assert_eq!(replace_str("a b  c", " ", ""), "abc");
    assert_eq!(replace_str("xyz", "q", "r"), "xyz");
}

#[test]
fn join_with_separator() {
    let v: Vec<String> = vec!["a".into(), "b".into(), "c".into()];
    assert_eq!(join_strings(&v, ", "), "a, b, c");
    assert_eq!(join_strings(&Vec::new(), ", "), "");
    assert_eq!(join_strings(&vec!["x".to_string()], ", "), "x");
}

#[test]
fn decimal_notation() {
    assert_eq!(decimal_string(0), "0");
    assert_eq!(decimal_string(700), "700");
    assert_eq!(decimal_string(u64::MAX), u64::MAX.to_string());
}

#[test]
fn string_equality() {
    assert!(str_eq("md", "md"));
    assert!(!str_eq("md", "MD"));
}

#[test]
fn lowercase_mapping() {
    assert_eq!(to_lowercase("Noto Sans SC"), "noto sans sc");
    assert_eq!(to_lowercase("\u{0130}"), "\u{0130}".to_lowercase());
}
