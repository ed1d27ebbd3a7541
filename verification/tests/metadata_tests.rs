use pdf_composer::OrderedMap;
use pdf_composer::check_entry_exists;
use pdf_composer::creator_entry;
use pdf_composer::doc_info_entries;
use pdf_composer::normalize_field_name;
use pdf_composer::populate_dictionary;
use pdf_composer::producer_entry;

fn string_map(entries: &[(&str, &str)]) -> OrderedMap<String> {
    let mut m = OrderedMap::new();
    for (k, v) in entries {
        m.insert(k.to_string(), v.to_string());
    }
    m
}

#[test]
fn normalize_reserved_names_whatever_their_case() {
    assert_eq!(normalize_field_name("author"), "Author");
    assert_eq!(normalize_field_name("AUTHOR"), "Author");
    assert_eq!(normalize_field_name("Author"), "Author");
    assert_eq!(normalize_field_name("title"), "Title");
    assert_eq!(normalize_field_name("TITLE"), "Title");
    assert_eq!(normalize_field_name("sUbJeCt"), "Subject");
    assert_eq!(normalize_field_name("keywords"), "Keywords");
}

#[test]
fn normalize_keeps_other_names_as_given() {
    assert_eq!(normalize_field_name("language"), "language");
    assert_eq!(normalize_field_name("Language"), "Language");
    assert_eq!(normalize_field_name("custom-Field"), "custom-Field");
    assert_eq!(normalize_field_name(""), "");
}

#[test]
fn absent_value_produces_no_pair() {
    let rules = string_map(&[("Language", "locale"), ("Author", "author")]);
    let strings = string_map(&[("author", "Jane")]);
    let pairs = doc_info_entries(&rules, &strings, "report");
    assert!(pairs.iter().all(|p| p.0 != "Language"));
    assert!(pairs.contains(&("Author".to_string(), "Jane".to_string())));
}

#[test]
fn title_rule_with_value_is_used() {
    let rules = string_map(&[("Title", "title")]);
    let strings = string_map(&[("title", "Hello")]);
    let pairs = doc_info_entries(&rules, &strings, "fallback");
    assert_eq!(pairs, vec![("Title".to_string(), "Hello".to_string())]);
}

#[test]
fn title_falls_back_to_derived_name() {
    let rules = string_map(&[("Author", "author")]);
    let strings = string_map(&[("author", "Jane")]);
    let pairs = doc_info_entries(&rules, &strings, "report");
    assert_eq!(
        pairs,
        vec![
            ("Author".to_string(), "Jane".to_string()),
            ("Title".to_string(), "report".to_string()),
        ]
    );
}

#[test]
fn title_falls_back_when_its_rule_key_is_absent() {
    let rules = string_map(&[("Title", "title")]);
    let strings = string_map(&[]);
    let pairs = doc_info_entries(&rules, &strings, "report");
    assert_eq!(pairs, vec![("Title".to_string(), "report".to_string())]);
}

#[test]
fn rule_order_is_kept() {
    let rules = string_map(&[("Subject", "subject"), ("Author", "author")]);
    let strings = string_map(&[("author", "Jane"), ("subject", "Testing"), ("title", "T")]);
    let pairs = doc_info_entries(&rules, &strings, "x");
    assert_eq!(
        pairs,
        vec![
            ("Subject".to_string(), "Testing".to_string()),
            ("Author".to_string(), "Jane".to_string()),
            ("Title".to_string(), "x".to_string()),
        ]
    );
}

#[test]
fn creator_uses_generator_when_present() {
    let strings = string_map(&[("generator", "my-tool")]);
    assert_eq!(creator_entry(&strings), "my-tool");
}

#[test]
fn creator_falls_back_to_package_name() {
    let strings = string_map(&[]);
    assert_eq!(creator_entry(&strings), "PDF Composer");
}

#[test]
fn producer_is_the_package_name() {
    assert_eq!(producer_entry(), "PDF Composer");
}

#[test]
fn entry_existence_check() {
    let strings = string_map(&[("author", "Jane")]);
    assert!(check_entry_exists("author".to_string(), &strings));
    assert!(!check_entry_exists("missing".to_string(), &strings));
}

#[test]
fn dictionary_pair_is_utf8_bytes() {
    let strings = string_map(&[("author", "Jane")]);
    let (key, value) = populate_dictionary("author".to_string(), &strings);
    assert_eq!(key, b"author".to_vec());
    assert_eq!(value, b"Jane".to_vec());
}
