use pdf_composer::FontsStandard;
use pdf_composer::PDFComposerStruct;
use pdf_composer::PDFDocInfoEntry;
use pdf_composer::PDFVersion;
use pdf_composer::PaperOrientation;
use pdf_composer::PaperSize;
use pdf_composer::SkipReason;
use pdf_composer::YamlValue;
use pdf_composer::derived_file_name;
use pdf_composer::extract_to_end_string;
use pdf_composer::strip_md_suffix;

fn lines(xs: &[&str]) -> Vec<String> {
    xs.iter().map(|s| s.to_string()).collect()
}

fn entry(field: &str, key: &str) -> PDFDocInfoEntry {
    PDFDocInfoEntry { doc_info_entry: field.to_string(), yaml_entry: key.to_string() }
}

#[test]
fn new_composer_has_the_documented_defaults() {
    let c = PDFComposerStruct::new();
    assert_eq!(c.fmy_source_files.len(), 0);
    assert_eq!(c.output_directory, "pdf_composer_pdfs");
    assert!(matches!(c.pdf_version, PDFVersion::V1_7));
    assert!(matches!(c.paper_size, PaperSize::A4));
    assert!(matches!(c.orientation, PaperOrientation::Portrait));
    assert_eq!(
        (c.margins.top, c.margins.right, c.margins.bottom, c.margins.left),
        (10, 10, 10, 10)
    );
    assert!(matches!(c.font, FontsStandard::Helvetica));
    assert_eq!(c.source_count(), 0);
}

#[test]
fn setters_update_their_fields() {
    let mut c = PDFComposerStruct::new();
    c.set_pdf_version(PDFVersion::V2_0);
    c.set_output_directory("out/pdfs");
    c.set_paper_size(PaperSize::Letter);
    c.set_orientation(PaperOrientation::Landscape);
    c.set_font(FontsStandard::TimesRoman);
    assert!(matches!(c.pdf_version, PDFVersion::V2_0));
    assert_eq!(c.output_directory, "out/pdfs");
    assert!(matches!(c.paper_size, PaperSize::Letter));
    assert!(matches!(c.orientation, PaperOrientation::Landscape));
    assert!(matches!(c.font, FontsStandard::TimesRoman));
}

#[test]
fn add_source_files_normalizes_backslashes() {
    let mut c = PDFComposerStruct::new();
    c.add_source_files(lines(&["docs\\sub\\one.md", "plain/two.md"]));
    assert_eq!(c.fmy_source_files, lines(&["docs/sub/one.md", "plain/two.md"]));
    c.add_source_files(lines(&["three.md"]));
    assert_eq!(c.source_count(), 3);
}

#[test]
fn doc_info_entry_names_are_normalized_and_last_write_wins() {
    let mut c = PDFComposerStruct::new();
    c.set_doc_info_entry(entry("AUTHOR", "author"));
    c.set_doc_info_entry(entry("language", "lang"));
    c.set_doc_info_entry(entry("author", "writer"));
    assert_eq!(c.pdf_document_entries.len(), 2);
    assert_eq!(c.pdf_document_entries.get(&"Author".to_string()), Some(&"writer".to_string()));
    assert_eq!(c.pdf_document_entries.get(&"language".to_string()), Some(&"lang".to_string()));
}

#[test]
fn document_without_delimiters_is_skipped_not_crashed() {
    let c = PDFComposerStruct::new();
    let r = c.prepare_document("docs/plain.md", &lines(&["# no front matter", "text"]));
    assert_eq!(r.err(), Some(SkipReason::InvalidFrontMatter));
}

#[test]
fn document_with_one_delimiter_is_skipped() {
    let c = PDFComposerStruct::new();
    let r = c.prepare_document("docs/one.md", &lines(&["---", "title: X"]));
    assert_eq!(r.err(), Some(SkipReason::InvalidFrontMatter));
}

#[test]
fn empty_front_matter_is_skipped() {
    let c = PDFComposerStruct::new();
    let r = c.prepare_document("docs/empty.md", &lines(&["---", "---", "body"]));
    assert_eq!(r.err(), Some(SkipReason::InvalidFrontMatter));
}

#[test]
fn broken_yaml_front_matter_is_skipped() {
    let c = PDFComposerStruct::new();
    let r = c.prepare_document("docs/bad.md", &lines(&["---", "a: [1, 2", "---", "body"]));
    assert_eq!(r.err(), Some(SkipReason::InvalidFrontMatter));
}

#[test]
fn non_string_yaml_key_is_a_malformed_document() {
    let c = PDFComposerStruct::new();
    let yaml = YamlValue::Mapping(vec![(
        YamlValue::Bool(true),
        YamlValue::Str("x".to_string()),
    )]);
    let r = c.plan_document("docs/bad.md", "body", yaml);
    assert_eq!(r.err(), Some(SkipReason::MalformedYamlKeys));
}

#[test]
fn null_front_matter_is_invalid() {
    let c = PDFComposerStruct::new();
    let r = c.plan_document("docs/n.md", "body", YamlValue::Null);
    assert_eq!(r.err(), Some(SkipReason::InvalidFrontMatter));
}

#[test]
fn full_pipeline_for_a_small_document() {
    let mut c = PDFComposerStruct::new();
    c.set_doc_info_entry(entry("Title", "title"));
    let doc = lines(&["---", "title: Hello", "---", "# {{title}}"]);
    let plan = c.prepare_document("docs/hello.md", &doc).expect("document plans");
    assert_eq!(plan.doc_info, vec![("Title".to_string(), "Hello".to_string())]);
    assert_eq!(plan.output_file, "pdf_composer_pdfs/hello.pdf");
    assert_eq!(plan.pdf_version, "1.7");
    assert_eq!((plan.page_width, plan.page_height), (83, 117));
    assert_eq!(
        (plan.margins.top, plan.margins.right, plan.margins.bottom, plan.margins.left),
        (10, 10, 10, 10)
    );
    assert_eq!(plan.creator, "PDF Composer");
    assert_eq!(plan.producer, "PDF Composer");
    assert!(plan.navigation_url.starts_with(
        "data:text/html;charset=utf-8,<html><head><title>Hello</title><style>"
    ));
    assert!(plan.navigation_url.contains("font-family: Helvetica, sans-serif;"));
    assert!(plan.navigation_url.contains("size: 8.3in 11.7in;"));
    assert_eq!(
        plan.navigation_url,
        "data:text/html;charset=utf-8,<html><head><title>Hello</title><style>\n@media print {\n \
         body { font-family: Helvetica, sans-serif; font-weight: normal; font-style: normal }\n\n\
         @page {\nsize: 8.3in 11.7in;\n}\n}\n</style></head><body>\
         %3Ch1%3EHello%3C/h1%3E%0A</body></html>"
    );
}

#[test]
fn title_tag_falls_back_to_the_file_name() {
    let c = PDFComposerStruct::new();
    let doc = lines(&["---", "author: Jane", "---", "body"]);
    let plan = c.prepare_document("docs/report.md", &doc).expect("document plans");
    assert!(plan.navigation_url.contains("<title>report</title>"));
    assert_eq!(plan.doc_info, vec![("Title".to_string(), "report".to_string())]);
}

#[test]
fn generator_entry_becomes_the_creator() {
    let c = PDFComposerStruct::new();
    let doc = lines(&["---", "generator: my-tool", "---", "body"]);
    let plan = c.prepare_document("docs/g.md", &doc).expect("document plans");
    assert_eq!(plan.creator, "my-tool");
    assert_eq!(plan.producer, "PDF Composer");
}

#[test]
fn whole_page_size_prints_without_a_decimal() {
    let mut c = PDFComposerStruct::new();
    c.set_paper_size(PaperSize::Letter);
    let doc = lines(&["---", "title: T", "---", "x"]);
    let plan = c.prepare_document("d/l.md", &doc).expect("document plans");
    assert!(plan.navigation_url.contains("size: 8.5in 11in;"));
}

#[test]
fn extract_to_end_string_cases() {
    assert_eq!(extract_to_end_string("/path/to/file.txt"), Some("file.txt"));
    assert_eq!(extract_to_end_string("file"), Some("file"));
    assert_eq!(extract_to_end_string("/"), None);
    assert_eq!(extract_to_end_string("dir/"), None);
    assert_eq!(extract_to_end_string(""), Some(""));
}

#[test]
fn md_suffixes_are_stripped_repeatedly() {
    assert_eq!(strip_md_suffix("a.md"), "a");
    assert_eq!(strip_md_suffix("a.md.md"), "a");
    assert_eq!(strip_md_suffix("a.txt"), "a.txt");
    assert_eq!(strip_md_suffix("md"), "md");
}

#[test]
fn derived_file_names() {
    assert_eq!(derived_file_name("docs/x.md"), Some("x".to_string()));
    assert_eq!(derived_file_name("x.md"), Some("x".to_string()));
    assert_eq!(derived_file_name("docs/sub/y.markdown"), Some("y.markdown".to_string()));
    assert_eq!(derived_file_name("docs/"), None);
}
