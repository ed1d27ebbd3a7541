use pdf_composer::OrderedMap;
use pdf_composer::YamlValue;
use pdf_composer::merge_markdown_yaml;
use pdf_composer::parse_yaml;
use pdf_composer::string_entries;
use pdf_composer::yaml_mapping_to_btreemap;

fn ystr(x: &str) -> YamlValue {
    YamlValue::Str(x.to_string())
}

#[test]
fn converter_accepts_string_keys() {
    let yaml = YamlValue::Mapping(vec![
        (ystr("a"), ystr("x")),
        (ystr("b"), YamlValue::Number("1".to_string())),
    ]);
    let m = yaml_mapping_to_btreemap(yaml).expect("conversion succeeds");
    assert_eq!(m.len(), 2);
    assert!(m.contains_key(&"a".to_string()));
    assert!(m.contains_key(&"b".to_string()));
    assert_eq!(m.get(&"a".to_string()), Some(&ystr("x")));
    assert_eq!(m.get(&"b".to_string()), Some(&YamlValue::Number("1".to_string())));
}

#[test]
fn converter_rejects_non_string_key() {
    let yaml = YamlValue::Mapping(vec![
        (ystr("a"), ystr("x")),
        (YamlValue::Bool(true), ystr("y")),
    ]);
    assert!(yaml_mapping_to_btreemap(yaml).is_none());
}

#[test]
fn converter_empty_mapping_is_empty_map_not_failure() {
    let yaml = YamlValue::Mapping(Vec::new());
    let m = yaml_mapping_to_btreemap(yaml).expect("empty mapping converts");
    assert_eq!(m.len(), 0);
}

#[test]
fn converter_rejects_non_mappings() {
    assert!(yaml_mapping_to_btreemap(YamlValue::Null).is_none());
    assert!(yaml_mapping_to_btreemap(ystr("x")).is_none());
    assert!(yaml_mapping_to_btreemap(YamlValue::Sequence(vec![ystr("x")])).is_none());
}

#[test]
fn converter_first_insert_wins() {
    let yaml = YamlValue::Mapping(vec![(ystr("a"), ystr("1")), (ystr("a"), ystr("2"))]);
    let m = yaml_mapping_to_btreemap(yaml).expect("conversion succeeds");
    assert_eq!(m.len(), 1);
    assert_eq!(m.get(&"a".to_string()), Some(&ystr("1")));
}

#[test]
fn parse_simple_mapping() {
    let yaml = parse_yaml("title: Hello\nauthor: Jane\n").expect("parses");
    let m = yaml_mapping_to_btreemap(yaml).expect("converts");
    assert_eq!(m.get(&"title".to_string()), Some(&ystr("Hello")));
    assert_eq!(m.get(&"author".to_string()), Some(&ystr("Jane")));
}

#[test]
fn parse_rejects_broken_yaml() {
    assert!(parse_yaml("a: [1, 2").is_none());
}

#[test]
fn parse_empty_block_is_null() {
    assert_eq!(parse_yaml(""), Some(YamlValue::Null));
}

#[test]
fn structured_value_kept_in_map_but_not_a_string_entry() {
    let yaml = parse_yaml("foo: [1,2]\nbar: baz\n").expect("parses");
    let m = yaml_mapping_to_btreemap(yaml).expect("converts");
    assert!(m.contains_key(&"foo".to_string()));
    match m.get(&"foo".to_string()) {
        Some(YamlValue::Sequence(items)) => assert_eq!(items.len(), 2),
        other => panic!("expected a sequence, got {:?}", other),
    }
    let strings = string_entries(&m);
    assert!(!strings.contains_key(&"foo".to_string()));
    assert_eq!(strings.get(&"bar".to_string()), Some(&"baz".to_string()));
    assert_eq!(merge_markdown_yaml(&m, "{{foo}}"), "{{foo}}");
}

#[test]
fn string_entries_keeps_exactly_the_string_values() {
    let mut m = OrderedMap::new();
    m.insert("a".to_string(), ystr("x"));
    m.insert("n".to_string(), YamlValue::Number("3".to_string()));
    m.insert("b".to_string(), ystr("y"));
    m.insert("z".to_string(), YamlValue::Null);
    let strings = string_entries(&m);
    assert_eq!(strings.len(), 2);
    assert_eq!(strings.get(&"a".to_string()), Some(&"x".to_string()));
    assert_eq!(strings.get(&"b".to_string()), Some(&"y".to_string()));
    assert!(!strings.contains_key(&"n".to_string()));
    assert!(!strings.contains_key(&"z".to_string()));
}

#[test]
fn ordered_map_insert_overwrites_in_place() {
    let mut m = OrderedMap::new();
    m.insert("k".to_string(), ystr("1"));
    m.insert("j".to_string(), ystr("2"));
    m.insert("k".to_string(), ystr("3"));
    assert_eq!(m.len(), 2);
    assert_eq!(m.get(&"k".to_string()), Some(&ystr("3")));
    assert_eq!(m.key_at(0).as_str(), "k");
    assert_eq!(m.key_at(1).as_str(), "j");
}

#[test]
fn converted_map_enumerates_keys_alphabetically() {
    let yaml = parse_yaml("b: 2\nc: 3\na: 1\n").expect("parses");
    let m = yaml_mapping_to_btreemap(yaml).expect("converts");
    assert_eq!(m.len(), 3);
    assert_eq!(m.key_at(0).as_str(), "a");
    assert_eq!(m.key_at(1).as_str(), "b");
    assert_eq!(m.key_at(2).as_str(), "c");
}

#[test]
fn converted_map_sorts_constructed_mappings_too() {
    let yaml = YamlValue::Mapping(vec![
        (ystr("zeta"), ystr("1")),
        (ystr("alpha"), ystr("2")),
        (ystr("mid"), ystr("3")),
    ]);
    let m = yaml_mapping_to_btreemap(yaml).expect("converts");
    assert_eq!(m.key_at(0).as_str(), "alpha");
    assert_eq!(m.key_at(1).as_str(), "mid");
    assert_eq!(m.key_at(2).as_str(), "zeta");
}
