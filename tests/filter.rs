use adfeed::filter::{apply_filters, ordered_levels, parse_level_name, LevelFilters, UrlFilters};
use adfeed::strmap::StrMap;

fn levels(entries: &[(&str, &[&str])]) -> LevelFilters {
    let mut inner = StrMap::new();
    for (name, kws) in entries {
        inner.insert(name.to_string(), kws.iter().map(|k| k.to_string()).collect());
    }
    inner
}

fn filters_for(url: &str, inner: LevelFilters) -> UrlFilters {
    let mut filters = StrMap::new();
    filters.insert(url.to_string(), inner);
    filters
}

#[test]
fn test_apply_filters_empty() {
    let filters: UrlFilters = StrMap::new();
    assert!(apply_filters(&filters, "https://example.com", "Some Ad Title"));
}

#[test]
fn test_apply_filters_single_level_pass() {
    let mut inner = StrMap::new();
    inner.insert("level1".to_string(), vec!["apple".to_string(), "banana".to_string()]);
    let mut filters = StrMap::new();
    filters.insert("https://example.com".to_string(), inner);

    assert!(apply_filters(&filters, "https://example.com", "Delicious Apple Ad"));
    assert!(apply_filters(&filters, "https://example.com", "Yellow Banana Ad"));
}

#[test]
fn test_apply_filters_single_level_fail() {
    let mut inner = StrMap::new();
    inner.insert("level1".to_string(), vec!["apple".to_string(), "banana".to_string()]);
    let mut filters = StrMap::new();
    filters.insert("https://example.com".to_string(), inner);

    assert!(!apply_filters(&filters, "https://example.com", "Orange Ad"));
}

#[test]
fn test_apply_filters_multi_level_pass() {
    let mut inner = StrMap::new();
    inner.insert("level1".to_string(), vec!["iphone".to_string(), "samsung".to_string()]);
    inner.insert("level2".to_string(), vec!["pro".to_string(), "plus".to_string()]);
    let mut filters = StrMap::new();
    filters.insert("https://example.com".to_string(), inner);

    assert!(apply_filters(&filters, "https://example.com", "iPhone 15 Pro Max"));
    assert!(apply_filters(&filters, "https://example.com", "Samsung S24 Plus"));
}

#[test]
fn test_apply_filters_multi_level_fail() {
    let mut inner = StrMap::new();
    inner.insert("level1".to_string(), vec!["iphone".to_string(), "samsung".to_string()]);
    inner.insert("level2".to_string(), vec!["pro".to_string(), "plus".to_string()]);
    let mut filters = StrMap::new();
    filters.insert("https://example.com".to_string(), inner);

    assert!(!apply_filters(&filters, "https://example.com", "iPhone 15 Base"));
    assert!(!apply_filters(&filters, "https://example.com", "Google Pixel Pro"));
}

#[test]
fn test_apply_filters_case_insensitive() {
    let mut inner = StrMap::new();
    inner.insert("level1".to_string(), vec!["APPLE".to_string()]);
    let mut filters = StrMap::new();
    filters.insert("https://example.com".to_string(), inner);

    assert!(apply_filters(&filters, "https://example.com", "apple juice"));
}

#[test]
fn test_apply_filters_empty_level_keywords() {
    let mut inner = StrMap::new();
    inner.insert("level1".to_string(), vec![]);
    let mut filters = StrMap::new();
    filters.insert("https://example.com".to_string(), inner);

    assert!(apply_filters(&filters, "https://example.com", "Anything"));
}

#[test]
fn test_apply_filters_non_numeric_level() {
    let mut inner = StrMap::new();
    inner.insert("levelA".to_string(), vec!["apple".to_string()]);
    let mut filters = StrMap::new();
    filters.insert("https://example.com".to_string(), inner);

    assert!(apply_filters(&filters, "https://example.com", "Orange"));
}

#[test]
fn test_apply_filters_special_characters() {
    let mut inner = StrMap::new();
    inner.insert("level1".to_string(), vec!["i-phone 15+".to_string()]);
    let mut filters = StrMap::new();
    filters.insert("https://example.com".to_string(), inner);

    assert!(apply_filters(&filters, "https://example.com", "New i-Phone 15+ for sale"));
}

#[test]
fn scenario_two_levels_on_one_url() {
    let filters = filters_for(
        "https://x",
        levels(&[("level1", &["iphone", "samsung"]), ("level2", &["pro", "plus"])]),
    );
    assert!(apply_filters(&filters, "https://x", "iPhone 15 Pro Max"));
    assert!(!apply_filters(&filters, "https://x", "iPhone 15 Base"));
    assert!(!apply_filters(&filters, "https://x", "Google Pixel Pro"));
}

#[test]
fn title_without_any_keyword_is_rejected() {
    let filters = filters_for("https://x", levels(&[("level1", &["bike"]), ("level7", &["red"])]));
    assert!(!apply_filters(&filters, "https://x", "Blue car"));
    assert!(apply_filters(&filters, "https://x", "RED BIKE for sale"));
}

#[test]
fn filters_of_another_url_do_not_apply() {
    let filters = filters_for("https://x", levels(&[("level1", &["bike"])]));
    assert!(apply_filters(&filters, "https://y", "Blue car"));
}

#[test]
fn url_with_no_levels_passes_everything() {
    let filters = filters_for("https://x", StrMap::new());
    assert!(apply_filters(&filters, "https://x", "Anything at all"));
}

#[test]
fn malformed_level_names_are_ignored() {
    let filters = filters_for(
        "https://x",
        levels(&[("Level1", &["bike"]), ("level-2", &["bike"]), ("tier1", &["bike"])]),
    );
    assert!(apply_filters(&filters, "https://x", "Blue car"));
}

#[test]
fn bare_level_name_is_ignored() {
    let filters = filters_for("https://x", levels(&[("level", &["bike"])]));
    assert!(apply_filters(&filters, "https://x", "Blue car"));
    let filters = filters_for(
        "https://x",
        levels(&[("level", &["bike"]), ("level1", &["car"])]),
    );
    assert!(apply_filters(&filters, "https://x", "Blue car"));
    assert!(!apply_filters(&filters, "https://x", "Red bike"));
}

#[test]
fn level_names_parse_to_their_rank() {
    assert_eq!(parse_level_name("level12"), Some(12));
    assert_eq!(parse_level_name("level007"), Some(7));
    assert_eq!(parse_level_name("level"), None);
    assert_eq!(parse_level_name("level99999999999"), Some(0));
    assert_eq!(parse_level_name("level1a"), None);
    assert_eq!(parse_level_name("lev"), None);
    assert_eq!(parse_level_name("Level1"), None);
}

#[test]
fn levels_are_ordered_by_rank() {
    let inner = levels(&[
        ("level10", &["a"]),
        ("other", &["b"]),
        ("level2", &["c"]),
        ("level1", &["d"]),
    ]);
    assert_eq!(ordered_levels(&inner), vec![3, 2, 0]);
}

#[test]
fn keyword_matching_ignores_case_of_keyword() {
    let filters = filters_for("https://x", levels(&[("level1", &["ÉCRAN"])]));
    assert!(apply_filters(&filters, "https://x", "grand écran 4k"));
}
