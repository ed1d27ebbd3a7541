use pdf_composer::extract_front_matter;
use pdf_composer::is_delimiter_line;

fn as_lines(xs: &[&str]) -> Vec<String> {
    xs.iter().map(|s| s.to_string()).collect()
}

#[test]
fn extract_basic_two_delimiters() {
    let ls = as_lines(&["---", "title: Hello", "---", "# Body", "more"]);
    let split = extract_front_matter(&ls);
    assert_eq!(split.yaml_text, "title: Hello\n");
    assert_eq!(split.markdown_text, "# Body\nmore\n");
    assert_eq!(split.delimiter_count, 2);
}

#[test]
fn extract_zero_delimiters() {
    let ls = as_lines(&["# Just markdown", "text"]);
    let split = extract_front_matter(&ls);
    assert_eq!(split.delimiter_count, 0);
    assert_eq!(split.markdown_text, "");
    assert_eq!(split.yaml_text, "# Just markdown\ntext\n");
}

#[test]
fn extract_one_delimiter() {
    let ls = as_lines(&["---", "a: b"]);
    let split = extract_front_matter(&ls);
    assert_eq!(split.delimiter_count, 1);
    assert_eq!(split.markdown_text, "");
    assert_eq!(split.yaml_text, "a: b\n");
}

#[test]
fn extract_later_delimiters_are_content() {
    let ls = as_lines(&["---", "a: b", "---", "x", "---", "y"]);
    let split = extract_front_matter(&ls);
    assert_eq!(split.delimiter_count, 2);
    assert_eq!(split.markdown_text, "x\n---\ny\n");
}

#[test]
fn extract_delimiter_lines_may_carry_whitespace() {
    let ls = as_lines(&["  ---  ", "a: b", "\t---", "body"]);
    let split = extract_front_matter(&ls);
    assert_eq!(split.delimiter_count, 2);
    assert_eq!(split.yaml_text, "a: b\n");
    assert_eq!(split.markdown_text, "body\n");
}

#[test]
fn extract_content_before_first_delimiter_joins_yaml() {
    let ls = as_lines(&["junk", "---", "a: b", "---", "x"]);
    let split = extract_front_matter(&ls);
    assert_eq!(split.yaml_text, "junk\na: b\n");
    assert_eq!(split.markdown_text, "x\n");
}

#[test]
fn extract_empty_document() {
    let ls: Vec<String> = Vec::new();
    let split = extract_front_matter(&ls);
    assert_eq!(split.delimiter_count, 0);
    assert_eq!(split.yaml_text, "");
    assert_eq!(split.markdown_text, "");
}

#[test]
fn delimiter_line_recognition() {
    assert!(is_delimiter_line("---"));
    assert!(is_delimiter_line(" --- "));
    assert!(is_delimiter_line("\t---\t"));
    assert!(!is_delimiter_line("----"));
    assert!(!is_delimiter_line("--"));
    assert!(!is_delimiter_line(""));
    assert!(!is_delimiter_line("   "));
    assert!(!is_delimiter_line("--- x"));
    assert!(is_delimiter_line("\u{00A0}---\u{3000}"));
}
