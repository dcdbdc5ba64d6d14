use std::collections::BTreeMap;
use std::collections::BTreeSet;

use serde_trim::{
    btreeset_string_trim, is_whitespace_char, option_string_trim, string_trim, vec_string_trim,
};

#[test]
fn test_string_trim() {
    let json = r#"{"name":" "}"#;
    let decoded: BTreeMap<String, String> = serde_json::from_str(json).unwrap();
    let name = string_trim(decoded.get("name").unwrap());
    assert_eq!(name, "");
}

#[test]
fn test_vec_string_trim() {
    let json = r#"{"name":["   ","foo","b ar","hello ","  rust"]}"#;
    let decoded: BTreeMap<String, Vec<String>> = serde_json::from_str(json).unwrap();
    let name = vec_string_trim(decoded.get("name").unwrap().clone());
    assert_eq!(name, vec!["", "foo", "b ar", "hello", "rust"]);
}

#[test]
fn test_option_string_trim() {
    let json = r#"{"name":" "}"#;
    let decoded: BTreeMap<String, String> = serde_json::from_str(json).unwrap();
    let name = option_string_trim(decoded.get("name").cloned());
    assert_eq!(name, None);

    let json = r#"{"addr":"ABC"}"#;
    let decoded: BTreeMap<String, String> = serde_json::from_str(json).unwrap();
    let name = option_string_trim(decoded.get("name").cloned());
    assert_eq!(name, None);
    assert_eq!(decoded.get("addr").unwrap(), "ABC");
}

#[test]
fn test_btreeset_string_trim() {
    let json = r#"{"name":["   ","foo","b ar","hello ","  rust"]}"#;
    let decoded: BTreeMap<String, BTreeSet<String>> = serde_json::from_str(json).unwrap();
    let input: Vec<String> = decoded.get("name").unwrap().iter().cloned().collect();
    let name: BTreeSet<String> = btreeset_string_trim(input).into_iter().collect();
    let expected: BTreeSet<String> = BTreeSet::from_iter([
        "".to_string(),
        "foo".to_string(),
        "b ar".to_string(),
        "hello".to_string(),
        "rust".to_string(),
    ]);
    assert_eq!(name, expected);
}

#[test]
fn trim_is_idempotent() {
    for s in ["", "  a  ", "a b", "\t x \n", "\u{3000}foo\u{00A0}", "   "] {
        let once = string_trim(s);
        let twice = string_trim(&once);
        assert_eq!(twice, once);
    }
}

#[test]
fn trim_collapses_whitespace_only() {
    for s in ["", " ", "   ", "\t\n\r", "\u{00A0}\u{2000}\u{3000}", "\u{0085}\u{202F}"] {
        assert_eq!(string_trim(s), "");
    }
}

#[test]
fn trim_removes_unicode_whitespace_at_both_ends() {
    assert_eq!(string_trim("\u{3000}foo\u{00A0}"), "foo");
    assert_eq!(string_trim("\u{2009}a b\u{2028}\u{205F}"), "a b");
    assert_eq!(string_trim("no change"), "no change");
}

#[test]
fn trim_keeps_interior_whitespace() {
    assert_eq!(string_trim("  a  b  "), "a  b");
}

#[test]
fn whitespace_classification() {
    for c in [' ', '\t', '\n', '\r', '\u{00A0}', '\u{2000}', '\u{200A}', '\u{3000}'] {
        assert!(is_whitespace_char(c));
    }
    for c in ['a', '0', '_', '\u{200B}', '\u{FEFF}', '-'] {
        assert!(!is_whitespace_char(c));
    }
}

#[test]
fn vec_trim_keeps_order_and_duplicates() {
    let input = vec![" a ".to_string(), "b".to_string(), " a ".to_string(), " ".to_string()];
    let output = vec_string_trim(input);
    assert_eq!(output, vec!["a", "b", "a", ""]);
}

#[test]
fn vec_trim_of_empty_is_empty() {
    let output = vec_string_trim(Vec::new());
    assert!(output.is_empty());
}

#[test]
fn option_trim_absent_stays_absent() {
    assert_eq!(option_string_trim(None), None);
}

#[test]
fn option_trim_blank_becomes_absent() {
    assert_eq!(option_string_trim(Some(" ".to_string())), None);
    assert_eq!(option_string_trim(Some("".to_string())), None);
    assert_eq!(option_string_trim(Some("\u{00A0}\t".to_string())), None);
}

#[test]
fn option_trim_present_stays_present() {
    assert_eq!(option_string_trim(Some("  x ".to_string())), Some("x".to_string()));
    assert_eq!(option_string_trim(Some("ABC".to_string())), Some("ABC".to_string()));
}

#[test]
fn set_trim_collapses_values_equal_after_trim() {
    let input = vec![" a".to_string(), "a ".to_string()];
    let output = btreeset_string_trim(input);
    assert_eq!(output, vec!["a"]);
}

#[test]
fn set_trim_never_grows() {
    let input = vec![" x".to_string(), "x".to_string(), "y ".to_string(), " x ".to_string()];
    let output = btreeset_string_trim(input);
    assert_eq!(output.len(), 2);
    let as_set: BTreeSet<String> = output.into_iter().collect();
    let expected: BTreeSet<String> = BTreeSet::from_iter(["x".to_string(), "y".to_string()]);
    assert_eq!(as_set, expected);
}
