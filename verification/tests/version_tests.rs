use systeminfo::version::{parse_version_str, Version};

#[test]
fn test_parse_full_triple() {
    assert_eq!(parse_version_str("1.2.3"), Some((1, 2, 3)));
}

#[test]
fn test_parse_single_component() {
    assert_eq!(parse_version_str("1"), Some((1, 0, 0)));
}

#[test]
fn test_parse_two_components() {
    assert_eq!(parse_version_str("10.15"), Some((10, 15, 0)));
}

#[test]
fn test_parse_fourth_component_fails() {
    assert_eq!(parse_version_str("1.2.3.4"), None);
}

#[test]
fn test_parse_trims_whitespace() {
    assert_eq!(parse_version_str(" 1.2.3 "), Some((1, 2, 3)));
}

#[test]
fn test_parse_non_numeric_fails() {
    assert_eq!(parse_version_str("rolling"), None);
    assert_eq!(parse_version_str("1.x"), None);
}

#[test]
fn test_from_string_empty_is_unknown() {
    assert_eq!(Version::from_string(""), Version::Unknown);
}

#[test]
fn test_from_string_semantic() {
    assert_eq!(Version::from_string("1.2.3"), Version::Semantic(1, 2, 3));
}

#[test]
fn test_from_string_falls_back_to_custom() {
    assert_eq!(
        Version::from_string("1.2.3.4"),
        Version::Custom("1.2.3.4".to_string())
    );
}

#[test]
fn test_display_forms() {
    assert_eq!(Version::Unknown.display(), "Unknown");
    assert_eq!(Version::Semantic(1, 2, 3).display(), "1.2.3");
    assert_eq!(Version::Rolling(None).display(), "Rolling Release");
    assert_eq!(
        Version::Rolling(Some("2021-01-17".to_string())).display(),
        "Rolling Release (2021-01-17)"
    );
    assert_eq!(Version::Custom("v9".to_string()).display(), "v9");
}
