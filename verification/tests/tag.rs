use vodka::tag::normalize_wine_tag;

#[test]
fn normalizes_wine_prefix() {
    assert_eq!(normalize_wine_tag("wine-11.2"), Some("11.2".to_string()));
}

#[test]
fn normalizes_v_prefix() {
    assert_eq!(normalize_wine_tag("v9.21"), Some("9.21".to_string()));
}

#[test]
fn trims_suffix() {
    assert_eq!(
        normalize_wine_tag("wine-8.0.1-rc1"),
        Some("8.0.1".to_string())
    );
}

#[test]
fn rejects_non_numeric() {
    assert_eq!(normalize_wine_tag("release"), None);
}

#[test]
fn rejects_empty_and_whitespace_only() {
    assert_eq!(normalize_wine_tag(""), None);
    assert_eq!(normalize_wine_tag("   "), None);
    assert_eq!(normalize_wine_tag("\t\n \u{A0}"), None);
}

#[test]
fn rejects_bare_prefixes() {
    assert_eq!(normalize_wine_tag("wine-"), None);
    assert_eq!(normalize_wine_tag("v"), None);
    assert_eq!(normalize_wine_tag("wine-v"), None);
}

#[test]
fn trims_surrounding_whitespace() {
    assert_eq!(normalize_wine_tag("  wine-7.0  "), Some("7.0".to_string()));
    assert_eq!(normalize_wine_tag("\tv5.1\n"), Some("5.1".to_string()));
}

#[test]
fn strips_wine_then_v() {
    assert_eq!(normalize_wine_tag("wine-v1.2"), Some("1.2".to_string()));
}

#[test]
fn keeps_plain_versions() {
    assert_eq!(normalize_wine_tag("1.2.3"), Some("1.2.3".to_string()));
    assert_eq!(normalize_wine_tag("9"), Some("9".to_string()));
    assert_eq!(normalize_wine_tag("0123456789"), Some("0123456789".to_string()));
}

#[test]
fn keeps_dots_only_prefix() {
    assert_eq!(normalize_wine_tag("..x"), Some("..".to_string()));
}

#[test]
fn stops_at_first_non_numeric_character() {
    assert_eq!(normalize_wine_tag("wine-9.0 (staging)"), Some("9.0".to_string()));
    assert_eq!(normalize_wine_tag("v10.4+hotfix"), Some("10.4".to_string()));
}

#[test]
fn strips_prefix_only_at_the_start() {
    // The prefixes come off only once and only in order: no second pass.
    assert_eq!(normalize_wine_tag("vwine-1.0"), None);
    assert_eq!(normalize_wine_tag("vv1.0"), None);
}
