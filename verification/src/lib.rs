//! Composition of styled PDF documents from Markdown sources with YAML
//! front matter.
//!
//! The library covers the text pipeline: splitting a document into its YAML
//! block and Markdown body, converting the parsed YAML into an ordered map,
//! substituting `{{key}}` placeholders, and deciding which entries go into
//! the PDF document-information dictionary. Rendering HTML to PDF bytes and
//! all file handling belong to the surrounding application.

pub mod composer;
pub mod fonts;
pub mod front_matter;
pub mod merge;
pub mod metadata;
pub mod ordered_map;
pub mod output_directory;
pub mod page_properties;
pub mod paths;
pub mod pdf_version;
pub mod render;
pub mod strutil;
pub mod yaml;

pub use composer::PDFComposerStruct;
pub use composer::SkipReason;
pub use fonts::FontsStandard;
pub use front_matter::FrontMatterSplit;
pub use front_matter::extract_front_matter;
pub use front_matter::is_delimiter_line;
pub use merge::merge_markdown_yaml;
pub use metadata::PACKAGE_NAME;
pub use metadata::PDFDocInfoEntry;
pub use metadata::check_entry_exists;
pub use metadata::creator_entry;
pub use metadata::doc_info_entries;
pub use metadata::normalize_field_name;
pub use metadata::populate_dictionary;
pub use metadata::producer_entry;
pub use ordered_map::OrderedMap;
pub use output_directory::OutputDirectory;
pub use page_properties::DEFAULT_MARGIN;
pub use page_properties::PageMargins;
pub use page_properties::PaperDimension;
pub use page_properties::PaperOrientation;
pub use page_properties::PaperSize;
pub use page_properties::oriented_dimensions;
pub use page_properties::parse_margins;
pub use paths::derived_file_name;
pub use paths::extract_to_end_string;
pub use paths::strip_md_suffix;
pub use pdf_version::PDFVersion;
pub use render::PDFBuilder;
pub use render::RenderPlan;
pub use render::build_render_plan;
pub use strutil::chars_of;
pub use strutil::string_from_chars;
pub use yaml::YamlValue;
pub use yaml::parse_yaml;
pub use yaml::string_entries;
pub use yaml::yaml_mapping_to_btreemap;
