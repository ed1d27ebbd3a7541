use pdf_composer::OrderedMap;
use pdf_composer::YamlValue;
use pdf_composer::merge_markdown_yaml;

fn map_of(entries: &[(&str, YamlValue)]) -> OrderedMap<YamlValue> {
    let mut m = OrderedMap::new();
    for (k, v) in entries {
        m.insert(k.to_string(), clone_value(v));
    }
    m
}

fn clone_value(v: &YamlValue) -> YamlValue {
    match v {
        YamlValue::Null => YamlValue::Null,
        YamlValue::Bool(b) => YamlValue::Bool(*b),
        YamlValue::Number(n) => YamlValue::Number(n.clone()),
        YamlValue::Str(text) => YamlValue::Str(text.clone()),
        YamlValue::Sequence(xs) => YamlValue::Sequence(xs.iter().map(clone_value).collect()),
        YamlValue::Mapping(ps) => YamlValue::Mapping(
            ps.iter().map(|(k, w)| (clone_value(k), clone_value(w))).collect(),
        ),
        YamlValue::Tagged(t) => YamlValue::Tagged(Box::new(clone_value(t))),
    }
}

fn sval(x: &str) -> YamlValue {
    YamlValue::Str(x.to_string())
}

#[test]
fn merge_replaces_known_placeholders() {
    let m = map_of(&[("name", sval("Richard")), ("age", sval("23"))]);
    let r = merge_markdown_yaml(&m, "Name: {{name}}\nAge: {{age}}");
    assert_eq!(r, "Name: Richard\nAge: 23");
}

#[test]
fn merge_missing_key_stays_verbatim() {
    let m = map_of(&[("name", sval("Richard"))]);
    let r = merge_markdown_yaml(&m, "Hello {{missing}}!");
    assert_eq!(r, "Hello {{missing}}!");
}

#[test]
fn merge_empty_map_returns_body_unchanged() {
    let m = OrderedMap::<YamlValue>::new();
    let body = "# Title\n{{a}} and {{b}} stay; so does }} and {{.";
    assert_eq!(merge_markdown_yaml(&m, body), body);
}

#[test]
fn merge_empty_capture_looks_up_empty_key() {
    let without = OrderedMap::<YamlValue>::new();
    assert_eq!(merge_markdown_yaml(&without, "x{{}}y"), "x{{}}y");
    let with = map_of(&[("", sval("Z"))]);
    assert_eq!(merge_markdown_yaml(&with, "x{{}}y"), "xZy");
}

#[test]
fn merge_skips_non_string_values() {
    let m = map_of(&[(
        "foo",
        YamlValue::Sequence(vec![
            YamlValue::Number("1".to_string()),
            YamlValue::Number("2".to_string()),
        ]),
    )]);
    assert_eq!(merge_markdown_yaml(&m, "see {{foo}}"), "see {{foo}}");
}

#[test]
fn merge_is_single_pass() {
    let m = map_of(&[("k", sval("{{j}}")), ("j", sval("z"))]);
    assert_eq!(merge_markdown_yaml(&m, "{{k}}"), "{{j}}");
}

#[test]
fn merge_leaves_unterminated_placeholders() {
    let m = map_of(&[("a", sval("x"))]);
    assert_eq!(merge_markdown_yaml(&m, "{{a"), "{{a");
    assert_eq!(merge_markdown_yaml(&m, "{{a}b}}"), "{{a}b}}");
}

#[test]
fn merge_capture_may_hold_open_braces() {
    let without = map_of(&[("y", sval("v"))]);
    assert_eq!(merge_markdown_yaml(&without, "{{x{{y}}"), "{{x{{y}}");
    let with = map_of(&[("x{{y", sval("w"))]);
    assert_eq!(merge_markdown_yaml(&with, "{{x{{y}}"), "w");
}

#[test]
fn merge_adjacent_placeholders() {
    let m = map_of(&[("a", sval("1")), ("b", sval("2"))]);
    assert_eq!(merge_markdown_yaml(&m, "{{a}}{{b}}"), "12");
}

#[test]
fn merge_key_used_verbatim_without_trimming() {
    let m = map_of(&[("key", sval("v"))]);
    assert_eq!(merge_markdown_yaml(&m, "{{ key }}"), "{{ key }}");
}

#[test]
fn scenario_merged_body_from_parsed_front_matter() {
    let yaml = pdf_composer::parse_yaml("title: Hello\n").expect("parses");
    let m = pdf_composer::yaml_mapping_to_btreemap(yaml).expect("converts");
    assert_eq!(merge_markdown_yaml(&m, "# {{title}}\n"), "# Hello\n");
}
