//! The composer configuration and the per-document pipeline: extraction,
//! conversion, placeholder substitution, and the finished render plan. The
//! surrounding application reads the files, runs the renderer, and writes
//! the results; every decision in between is made here.

use vstd::prelude::*;

use crate::fonts::FontsStandard;
use crate::front_matter::extract_front_matter;
use crate::front_matter::extract_spec;
use crate::merge::merge_markdown_yaml;
use crate::merge::merge_spec;
use crate::metadata::PDFDocInfoEntry;
use crate::metadata::normalize_field_name;
use crate::metadata::normalize_field_name_spec;
use crate::ordered_map::OrderedMap;
use crate::output_directory::OutputDirectory;
use crate::page_properties::PageMargins;
use crate::page_properties::PaperOrientation;
use crate::page_properties::PaperSize;
use crate::page_properties::margins_spec;
use crate::page_properties::parse_margins;
use crate::paths::derived_file_name_spec;
use crate::pdf_version::PDFVersion;
use crate::render::PDFBuilder;
use crate::render::RenderPlan;
use crate::render::build_render_plan;
use crate::render::html_of;
use crate::render::markdown_to_html;
use crate::render::plan_fields;
use crate::render::query_escaped_of;
use crate::yaml::YamlValue;
use crate::yaml::all_string_keys;
use crate::yaml::mapping_map;
use crate::yaml::parse_yaml;
use crate::yaml::string_subset;
use crate::yaml::yaml_of;
use crate::yaml::yaml_mapping_to_btreemap;

verus! {

/// Why a document produced no output. Every reason is scoped to its
/// document: the batch goes on.
#[derive(Clone, Copy, Debug, PartialEq, Eq, Structural)]
pub enum SkipReason {
    /// The source path did not resolve to a readable file.
    NotFound,
    /// Fewer than two delimiter lines, or a YAML block that is empty, null,
    /// or not parseable.
    InvalidFrontMatter,
    /// The YAML mapping holds a key that is not a plain string.
    MalformedYamlKeys,
    /// The renderer or the PDF library reported an error.
    RenderFailure,
    /// The destination file is exclusively locked by another process.
    OutputLocked,
}

/// The composer: the source files and the configuration a generation pass
/// runs under, assembled before the pass and never changed during it.
pub struct PDFComposerStruct {
    /// The source paths queued for generation.
    pub fmy_source_files: Vec<String>,
    /// The directory generated documents are written into.
    pub output_directory: String,
    /// The PDF specification version to stamp.
    pub pdf_version: PDFVersion,
    /// The registry of document-information rules: field name to YAML key,
    /// a later registration for a field overwriting an earlier one.
    pub pdf_document_entries: OrderedMap<String>,
    /// The paper size.
    pub paper_size: PaperSize,
    /// The page orientation.
    pub orientation: PaperOrientation,
    /// The page margins, in millimeters.
    pub margins: PageMargins,
    /// The font documents are set in.
    pub font: FontsStandard,
}

/// A path with every backslash replaced by the path separator.
pub open spec fn normalize_path_spec(s: Seq<char>) -> Seq<char> {
    s.map_values(|c: char| if c == '\\' { '/' } else { c })
}

/// Replaces backslashes in a path with the path separator.
fn normalize_path(path: &String) -> (r: String)
    ensures
        r@ == normalize_path_spec(path@),
{
    let cs = crate::strutil::chars_of(path.as_str());
    let n = cs.len();
    let mut out: Vec<char> = Vec::new();
    let mut i: usize = 0;
    while i < n
        invariant
            cs@ == path@,
            n == cs@.len(),
            i <= n,
            out@ == normalize_path_spec(path@).take(i as int),
        decreases n - i,
    {
        let c = cs[i];
        if c == '\\' {
            out.push('/');
        } else {
            out.push(c);
        }
        i = i + 1;
        proof {
            assert(out@ =~= normalize_path_spec(path@).take(i as int));
        }
    }
    proof {
        assert(normalize_path_spec(path@).take(n as int) =~= normalize_path_spec(path@));
    }
    crate::strutil::string_from_chars(&out)
}

impl PDFComposerStruct {
    /// Well-formed: the rule registry holds no repeated field.
    pub open spec fn wf(&self) -> bool {
        self.pdf_document_entries.wf()
    }

    /// A fresh composer with the default configuration: no sources, the
    /// default output directory, PDF 1.7, A4 portrait, ten-millimeter
    /// margins, Helvetica, and no rules.
    pub fn new() -> (r: Self)
        ensures
            r.wf(),
            r.fmy_source_files@.len() == 0,
            r.output_directory@ == "pdf_composer_pdfs"@,
            r.pdf_version == PDFVersion::V1_7,
            r.pdf_document_entries.as_map() == Map::<Seq<char>, String>::empty(),
            r.pdf_document_entries.keys() == Seq::<Seq<char>>::empty(),
            r.paper_size == PaperSize::A4,
            r.orientation == PaperOrientation::Portrait,
            r.margins == (PageMargins { top: 10, right: 10, bottom: 10, left: 10 }),
            r.font == FontsStandard::Helvetica,
    {
        PDFComposerStruct {
            fmy_source_files: Vec::new(),
            output_directory: "pdf_composer_pdfs".to_owned(),
            pdf_version: PDFVersion::V1_7,
            pdf_document_entries: OrderedMap::new(),
            paper_size: PaperSize::A4,
            orientation: PaperOrientation::Portrait,
            margins: PageMargins { top: 10, right: 10, bottom: 10, left: 10 },
            font: FontsStandard::Helvetica,
        }
    }

    /// Sets the PDF specification version.
    pub fn set_pdf_version(&mut self, pdf_version: PDFVersion)
        ensures
            *final (self) == (PDFComposerStruct { pdf_version, ..*old(self) }),
    {
        self.pdf_version = pdf_version;
    }

    /// Sets the output directory.
    pub fn set_output_directory<T: OutputDirectory>(&mut self, output_directory: T)
        ensures
            final (self).output_directory@ == output_directory.path_view(),
            *final (self) == (PDFComposerStruct {
                output_directory: final (self).output_directory,
                ..*old(self)
            }),
    {
        self.output_directory = output_directory.convert();
    }

    /// Sets the paper size.
    pub fn set_paper_size(&mut self, paper_size: PaperSize)
        ensures
            *final (self) == (PDFComposerStruct { paper_size, ..*old(self) }),
    {
        self.paper_size = paper_size;
    }

    /// Sets the page orientation.
    pub fn set_orientation(&mut self, orientation: PaperOrientation)
        ensures
            *final (self) == (PDFComposerStruct { orientation, ..*old(self) }),
    {
        self.orientation = orientation;
    }

    /// Sets the font.
    pub fn set_font(&mut self, font: FontsStandard)
        ensures
            *final (self) == (PDFComposerStruct { font, ..*old(self) }),
    {
        self.font = font;
    }

    /// Reads a margins string and installs the margin set it denotes; a
    /// malformed token installs the default set instead. Yields whether
    /// that fallback happened, for the caller to warn about.
    pub fn set_margins(&mut self, margins: &str) -> (warned: bool)
        ensures
            final (self).margins == margins_spec(margins@).0,
            warned == margins_spec(margins@).1,
            *final (self) == (PDFComposerStruct { margins: final (self).margins, ..*old(self) }),
    {
        let (m, warned) = parse_margins(margins);
        self.margins = m;
        warned
    }

    /// Appends source files, each path normalized to forward separators.
    pub fn add_source_files(&mut self, paths: Vec<String>)
        ensures
            final (self).fmy_source_files@.len() == old(self).fmy_source_files@.len()
                + paths@.len(),
            forall|i: int|
                0 <= i < old(self).fmy_source_files@.len()
                    ==> final (self).fmy_source_files@[i] == old(self).fmy_source_files@[i],
            forall|i: int|
                0 <= i < paths@.len()
                    ==> (#[trigger] final (self).fmy_source_files@[old(self).fmy_source_files@.len()
                    + i])@ == normalize_path_spec(paths@[i]@),
            *final (self) == (PDFComposerStruct {
                fmy_source_files: final (self).fmy_source_files,
                ..*old(self)
            }),
    {
        let n = paths.len();
        let mut i: usize = 0;
        while i < n
            invariant
                n == paths@.len(),
                i <= n,
                self.fmy_source_files@.len() == old(self).fmy_source_files@.len() + i,
                forall|j: int|
                    0 <= j < old(self).fmy_source_files@.len() ==> self.fmy_source_files@[j]
                        == old(self).fmy_source_files@[j],
                forall|j: int|
                    0 <= j < i ==> (#[trigger] self.fmy_source_files@[old(
                        self,
                    ).fmy_source_files@.len() + j])@ == normalize_path_spec(paths@[j]@),
                *self == (PDFComposerStruct {
                    fmy_source_files: self.fmy_source_files,
                    ..*old(self)
                }),
            decreases n - i,
        {
            let p = normalize_path(&paths[i]);
            self.fmy_source_files.push(p);
            i = i + 1;
        }
    }

    /// Registers a document-information rule: the field name is normalized,
    /// and a later registration for the same field overwrites the earlier
    /// one.
    pub fn set_doc_info_entry(&mut self, entry: PDFDocInfoEntry)
        requires
            old(self).wf(),
        ensures
            final (self).wf(),
            final (self).pdf_document_entries.as_map() == old(
                self,
            ).pdf_document_entries.as_map().insert(
                normalize_field_name_spec(entry.doc_info_entry@),
                entry.yaml_entry,
            ),
            final (self).pdf_document_entries.keys() == if old(
                self,
            ).pdf_document_entries.as_map().dom().contains(
                normalize_field_name_spec(entry.doc_info_entry@),
            ) {
                old(self).pdf_document_entries.keys()
            } else {
                old(self).pdf_document_entries.keys().push(
                    normalize_field_name_spec(entry.doc_info_entry@),
                )
            },
            *final (self) == (PDFComposerStruct {
                pdf_document_entries: final (self).pdf_document_entries,
                ..*old(self)
            }),
    {
        let field = normalize_field_name(entry.doc_info_entry.as_str());
        self.pdf_document_entries.insert(field, entry.yaml_entry);
    }

    /// Plans one document from its parsed front matter: a null value, or a
    /// mapping with a non-string key, skips the document; otherwise the
    /// body's placeholders are substituted from the string entries, the
    /// Markdown is compiled to HTML, and the render plan is assembled.
    pub fn plan_document(&self, source_file: &str, markdown_text: &str, yaml: YamlValue) -> (r:
        Result<RenderPlan, SkipReason>)
        requires
            self.wf(),
            derived_file_name_spec(source_file@) is Some,
        ensures
            match yaml {
                YamlValue::Null => r == Err::<RenderPlan, SkipReason>(
                    SkipReason::InvalidFrontMatter,
                ),
                YamlValue::Mapping(pairs) => if all_string_keys(pairs@) {
                    r matches Ok(p) && plan_fields(
                        p,
                        string_subset(mapping_map(pairs@)),
                        query_escaped_of(
                            html_of(
                                merge_spec(string_subset(mapping_map(pairs@)), markdown_text@),
                            ),
                        ),
                        self.pdf_document_entries.keys(),
                        self.pdf_document_entries.as_map(),
                        source_file@,
                        self.output_directory@,
                        self.pdf_version,
                        self.paper_size,
                        self.orientation,
                        self.margins,
                        self.font,
                    )
                } else {
                    r == Err::<RenderPlan, SkipReason>(SkipReason::MalformedYamlKeys)
                },
                _ => r == Err::<RenderPlan, SkipReason>(SkipReason::MalformedYamlKeys),
            },
    {
        let is_null = match &yaml {
            YamlValue::Null => true,
            _ => false,
        };
        if is_null {
            return Err(SkipReason::InvalidFrontMatter);
        }
        let map = match yaml_mapping_to_btreemap(yaml) {
            Some(m) => m,
            None => {
                return Err(SkipReason::MalformedYamlKeys);
            }
        };
        let merged = merge_markdown_yaml(&map, markdown_text);
        let html = markdown_to_html(merged.as_str());
        let builder = PDFBuilder {
            source_file: source_file.to_owned(),
            output_directory: self.output_directory.clone(),
            pdf_version: self.pdf_version,
            paper_size: self.paper_size,
            orientation: self.orientation,
            margins: self.margins,
            font: self.font,
        };
        let plan = build_render_plan(html, &map, &self.pdf_document_entries, &builder);
        Ok(plan)
    }

    /// Runs the text pipeline for one document: extraction of the front
    /// matter, parsing of the YAML block (a block the parser rejects counts
    /// as invalid front matter), and planning. A document with fewer than
    /// two delimiter lines is skipped and never crashes the pass; with two,
    /// the outcome is fixed by what the extracted YAML block parses to.
    pub fn prepare_document(&self, source_file: &str, lines: &Vec<String>) -> (r: Result<
        RenderPlan,
        SkipReason,
    >)
        requires
            self.wf(),
            derived_file_name_spec(source_file@) is Some,
        ensures
            extract_spec(lines.deep_view()).2 < 2 ==> r == Err::<RenderPlan, SkipReason>(
                SkipReason::InvalidFrontMatter,
            ),
            extract_spec(lines.deep_view()).2 >= 2 ==> match yaml_of(
                extract_spec(lines.deep_view()).0,
            ) {
                None => r == Err::<RenderPlan, SkipReason>(SkipReason::InvalidFrontMatter),
                Some(yaml) => match yaml {
                    YamlValue::Null => r == Err::<RenderPlan, SkipReason>(
                        SkipReason::InvalidFrontMatter,
                    ),
                    YamlValue::Mapping(pairs) => if all_string_keys(pairs@) {
                        r matches Ok(p) && plan_fields(
                            p,
                            string_subset(mapping_map(pairs@)),
                            query_escaped_of(
                                html_of(
                                    merge_spec(
                                        string_subset(mapping_map(pairs@)),
                                        extract_spec(lines.deep_view()).1,
                                    ),
                                ),
                            ),
                            self.pdf_document_entries.keys(),
                            self.pdf_document_entries.as_map(),
                            source_file@,
                            self.output_directory@,
                            self.pdf_version,
                            self.paper_size,
                            self.orientation,
                            self.margins,
                            self.font,
                        )
                    } else {
                        r == Err::<RenderPlan, SkipReason>(SkipReason::MalformedYamlKeys)
                    },
                    _ => r == Err::<RenderPlan, SkipReason>(SkipReason::MalformedYamlKeys),
                },
            },
            r is Err ==> (r == Err::<RenderPlan, SkipReason>(SkipReason::InvalidFrontMatter) || r
                == Err::<RenderPlan, SkipReason>(SkipReason::MalformedYamlKeys)),
    {
        let split = extract_front_matter(lines);
        if split.delimiter_count < 2 {
            return Err(SkipReason::InvalidFrontMatter);
        }
        match parse_yaml(split.yaml_text.as_str()) {
            None => Err(SkipReason::InvalidFrontMatter),
            Some(yaml) => self.plan_document(
                source_file,
                split.markdown_text.as_str(),
                yaml,
            ),
        }
    }

    /// The number of queued source files; a run with none is the one
    /// batch-level error.
    pub fn source_count(&self) -> (n: usize)
        ensures
            n == self.fmy_source_files@.len(),
    {
        self.fmy_source_files.len()
    }
}

/// The same fresh composer that `new` yields.
impl Default for PDFComposerStruct {
    fn default() -> (r: Self)
        ensures
            r.wf(),
            r.fmy_source_files@.len() == 0,
            r.output_directory@ == "pdf_composer_pdfs"@,
            r.pdf_version == PDFVersion::V1_7,
            r.pdf_document_entries.as_map() == Map::<Seq<char>, String>::empty(),
            r.pdf_document_entries.keys() == Seq::<Seq<char>>::empty(),
            r.paper_size == PaperSize::A4,
            r.orientation == PaperOrientation::Portrait,
            r.margins == (PageMargins { top: 10, right: 10, bottom: 10, left: 10 }),
            r.font == FontsStandard::Helvetica,
    {
        PDFComposerStruct::new()
    }
}

} // verus!
