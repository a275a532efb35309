use systeminfo::utils::value_for_substring;

#[test]
fn test_extract_word_after_label() {
    let s = "The bird Cuckoo is not a national bird!";
    assert_eq!(value_for_substring(s, "bird").unwrap().as_str(), "Cuckoo");
}

#[test]
fn test_extract_empty_label_returns_trimmed_source() {
    let s = "  padded text  ";
    assert_eq!(value_for_substring(s, "").unwrap().as_str(), "padded text");
}

#[test]
fn test_extract_absent_label() {
    let s = "The bird Cuckoo is not a national bird!";
    assert!(value_for_substring(s, "giraffe").is_none());
}

#[test]
fn test_extract_trims_token() {
    assert_eq!(
        value_for_substring("model=\"Laptop\" rest", "model").unwrap().as_str(),
        "Laptop"
    );
}

#[test]
fn test_extract_token_at_end() {
    assert_eq!(value_for_substring("key value", "key").unwrap().as_str(), "value");
}
