use systeminfo::utils::{to_hashmap, to_hashmap_with_delim, ToVecString};

#[test]
fn test_parse_two_labels() {
    let m = to_hashmap("Key1: Value1\nKey2: Value2".to_string());
    assert_eq!(m.get("Key1").unwrap().as_str(), "Value1");
    assert_eq!(m.get("Key2").unwrap().as_str(), "Value2");
    assert!(m.get("Key3").is_none());
}

#[test]
fn test_parse_custom_delim() {
    let m = to_hashmap_with_delim("Key1=Value1\nKey2=Value2".to_string(), '=');
    assert_eq!(m.get("Key1").unwrap().as_str(), "Value1");
    assert_eq!(m.get("Key2").unwrap().as_str(), "Value2");
}

#[test]
fn test_parse_quotes_and_equals_normalize() {
    // `KEY = "value"` and `KEY: value` normalize identically.
    let a = to_hashmap("KEY: = \"value\"".to_string());
    let b = to_hashmap("KEY: value".to_string());
    assert_eq!(a.get("KEY").unwrap().as_str(), "value");
    assert_eq!(b.get("KEY").unwrap().as_str(), "value");
}

#[test]
fn test_parse_ignores_blank_and_delimiterless_lines() {
    let m = to_hashmap("\n\nKey1: Value1\njust some prose\n\n".to_string());
    assert_eq!(m.get("Key1").unwrap().as_str(), "Value1");
    assert!(m.get("just some prose").is_none());
    assert!(m.get("").is_none());
}

#[test]
fn test_parse_duplicate_label_keeps_last() {
    let m = to_hashmap("Key: first\nKey: second".to_string());
    assert_eq!(m.get("Key").unwrap().as_str(), "second");
}

#[test]
fn test_parse_splits_on_first_delimiter() {
    let m = to_hashmap("Key: a:b:c".to_string());
    assert_eq!(m.get("Key").unwrap().as_str(), "a:b:c");
}

#[test]
fn test_parse_idempotent() {
    let text = "Key1: Value1\nKey2: Value2\nKey2: Value3";
    let a = to_hashmap(text.to_string());
    let b = to_hashmap(text.to_string());
    assert_eq!(a.get("Key1"), b.get("Key1"));
    assert_eq!(a.get("Key2"), b.get("Key2"));
    assert_eq!(a.get("absent"), b.get("absent"));
}

#[test]
fn test_to_vec_string() {
    let text = "  one \n\ntwo\n".to_string();
    let trimmed = text.to_vec_string(true);
    assert_eq!(trimmed, vec!["one".to_string(), "two".to_string()]);
    let raw = text.to_vec_string(false);
    assert_eq!(raw, vec!["  one ".to_string(), "two".to_string()]);
}
