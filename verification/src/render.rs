//! Assembly of the per-document render request: the navigation URL with
//! its embedded style block, the page geometry, and the resolved
//! document-information entries.

use vstd::prelude::*;

use crate::fonts::FontsStandard;
use crate::fonts::css_font_family;
use crate::fonts::css_font_style;
use crate::fonts::css_font_weight;
use crate::metadata::PACKAGE_NAME;
use crate::metadata::creator_entry;
use crate::metadata::creator_spec;
use crate::metadata::doc_info_entries;
use crate::metadata::doc_info_spec;
use crate::metadata::pairs_view;
use crate::ordered_map::OrderedMap;
use crate::page_properties::PageMargins;
use crate::page_properties::PaperOrientation;
use crate::page_properties::PaperSize;
use crate::page_properties::dimension_spec;
use crate::page_properties::oriented_dimensions;
use crate::page_properties::oriented_spec;
use crate::paths::derived_file_name;
use crate::paths::derived_file_name_spec;
use crate::pdf_version::PDFVersion;
use crate::pdf_version::version_string_spec;
use crate::strutil::tenths_str;
use crate::strutil::tenths_to_string;
use crate::yaml::YamlValue;
use crate::yaml::string_entries;
use crate::yaml::string_subset;
use crate::yaml::string_view_map;

verus! {

/// What URL-escaping the query set does to a text; the result is a
/// function of the text alone.
pub uninterp spec fn query_escaped_of(s: Seq<char>) -> Seq<char>;

/// Relies on `url_escape::encode_query_to_string`: percent-escaping for
/// the query part of a URL, appended to the output string, and determined
/// by the input text alone.
#[verifier::external_body]
fn encode_query(s: &str) -> (r: String)
    ensures
        r@ == query_escaped_of(s@),
        s@.len() == 0 ==> r@.len() == 0,
{
    let mut out = String::new();
    url_escape::encode_query_to_string(s, &mut out);
    out
}

/// What the Markdown-to-HTML renderer produces; the result is a function
/// of the Markdown text alone.
pub uninterp spec fn html_of(s: Seq<char>) -> Seq<char>;

/// Relies on `markdown::to_html`: CommonMark compilation to HTML,
/// determined by the Markdown text alone.
#[verifier::external_body]
pub(crate) fn markdown_to_html(s: &str) -> (r: String)
    ensures
        r@ == html_of(s@),
{
    markdown::to_html(s)
}

/// The data a render pass needs besides the HTML content: where the
/// document came from, where its output goes, and the page setup.
pub struct PDFBuilder {
    /// The source path the document was read from.
    pub source_file: String,
    /// The directory the finished document is written into.
    pub output_directory: String,
    /// The PDF specification version to stamp.
    pub pdf_version: PDFVersion,
    /// The paper size.
    pub paper_size: PaperSize,
    /// The page orientation.
    pub orientation: PaperOrientation,
    /// The page margins, in millimeters.
    pub margins: PageMargins,
    /// The font the document is set in.
    pub font: FontsStandard,
}

/// Everything the surrounding application needs to render one document and
/// stamp its metadata: values only, ready to hand to the renderer and the
/// PDF mutator.
pub struct RenderPlan {
    /// The `data:` URL the browser navigates to, HTML and style included.
    pub navigation_url: String,
    /// Page width in tenths of an inch, orientation applied.
    pub page_width: u32,
    /// Page height in tenths of an inch, orientation applied.
    pub page_height: u32,
    /// The page margins, in millimeters.
    pub margins: PageMargins,
    /// The version tag to set on the document.
    pub pdf_version: String,
    /// The full output file path.
    pub output_file: String,
    /// The document-information pairs to write, in order.
    pub doc_info: Vec<(String, String)>,
    /// The Creator value to overwrite.
    pub creator: String,
    /// The Producer value to overwrite.
    pub producer: String,
}

/// The title a document presents: the front matter's string-valued `title`
/// entry when it has one, else the derived file name.
pub open spec fn title_spec(sm: Map<Seq<char>, Seq<char>>, name: Seq<char>) -> Seq<char> {
    if sm.dom().contains("title"@) {
        sm["title"@]
    } else {
        name
    }
}

/// The style block: the body font and the printed page size.
pub open spec fn css_page_spec(font: FontsStandard, width: int, height: int) -> Seq<char> {
    "<style>\n@media print {\n "@ + "body { font-family: "@ + css_font_family(font)
        + "; font-weight: "@ + css_font_weight(font) + "; font-style: "@ + css_font_style(font)
        + " }\n\n"@ + "@page {\nsize: "@ + tenths_str(width) + "in "@ + tenths_str(height)
        + "in;\n}"@ + "\n}\n</style>"@
}

/// The document head and opening body tag wrapped around the content.
pub open spec fn html_before_spec(
    title: Seq<char>,
    font: FontsStandard,
    width: int,
    height: int,
) -> Seq<char> {
    "<html><head><title>"@ + title + "</title>"@ + css_page_spec(font, width, height)
        + "</head><body>"@
}

/// The full navigation URL: the `data:` scheme, the head, the escaped
/// content, and the closing tags.
pub open spec fn nav_url_spec(
    title: Seq<char>,
    font: FontsStandard,
    width: int,
    height: int,
    escaped: Seq<char>,
) -> Seq<char> {
    "data:text/html;charset=utf-8,"@ + html_before_spec(title, font, width, height) + escaped
        + "</body></html>"@
}

/// What a finished render plan holds, field by field, for a document with
/// string entries `sm`, escaped content `escaped`, and the given rule set
/// and configuration.
pub open spec fn plan_fields(
    p: RenderPlan,
    sm: Map<Seq<char>, Seq<char>>,
    escaped: Seq<char>,
    rules_keys: Seq<Seq<char>>,
    rules_map: Map<Seq<char>, String>,
    source_file: Seq<char>,
    output_directory: Seq<char>,
    pdf_version: PDFVersion,
    paper_size: PaperSize,
    orientation: PaperOrientation,
    margins: PageMargins,
    font: FontsStandard,
) -> bool {
    let name = derived_file_name_spec(source_file)->0;
    let dims = oriented_spec(dimension_spec(paper_size), orientation);
    &&& p.page_width == dims.width
    &&& p.page_height == dims.height
    &&& p.margins == margins
    &&& p.pdf_version@ == version_string_spec(pdf_version)
    &&& p.output_file@ == output_directory + "/"@ + name + ".pdf"@
    &&& pairs_view(p.doc_info@) == doc_info_spec(rules_keys, rules_map, sm, name)
    &&& p.creator@ == creator_spec(sm)
    &&& p.producer@ == PACKAGE_NAME@
    &&& p.navigation_url@ == nav_url_spec(
        title_spec(sm, name),
        font,
        dims.width as int,
        dims.height as int,
        escaped,
    )
}

/// Builds the render plan for one document: the navigation URL around the
/// generated HTML, the oriented page geometry, the output path derived
/// from the source file, and the document-information values that the
/// rules and the front matter decide.
#[verifier::rlimit(60)]
pub fn build_render_plan(
    generated_html: String,
    yaml_btreemap: &OrderedMap<YamlValue>,
    dictionary_entries: &OrderedMap<String>,
    instance_data: &PDFBuilder,
) -> (r: RenderPlan)
    requires
        yaml_btreemap.wf(),
        dictionary_entries.wf(),
        derived_file_name_spec(instance_data.source_file@) is Some,
    ensures
        plan_fields(
            r,
            string_subset(yaml_btreemap.as_map()),
            query_escaped_of(generated_html@),
            dictionary_entries.keys(),
            dictionary_entries.as_map(),
            instance_data.source_file@,
            instance_data.output_directory@,
            instance_data.pdf_version,
            instance_data.paper_size,
            instance_data.orientation,
            instance_data.margins,
            instance_data.font,
        ),
{
    let ghost sm = string_subset(yaml_btreemap.as_map());
    let name = match derived_file_name(instance_data.source_file.as_str()) {
        Some(n) => n,
        None => {
            proof {
                assert(false);
            }
            String::new()
        }
    };
    let strings = string_entries(yaml_btreemap);
    let dims = oriented_dimensions(instance_data.paper_size, instance_data.orientation);

    let title_key = "title".to_owned();
    let title = match strings.get(&title_key) {
        Some(v) => v.clone(),
        None => name.clone(),
    };
    proof {
        assert(title@ == title_spec(sm, name@));
    }

    let (family, weight, style) = instance_data.font.get_css_name();
    let width_text = tenths_to_string(dims.width);
    let height_text = tenths_to_string(dims.height);
    let escaped = encode_query(generated_html.as_str());

    let mut css = "<style>\n@media print {\n ".to_owned();
    css.append("body { font-family: ");
    css.append(family.as_str());
    css.append("; font-weight: ");
    css.append(weight.as_str());
    css.append("; font-style: ");
    css.append(style.as_str());
    css.append(" }\n\n");
    css.append("@page {\nsize: ");
    css.append(width_text.as_str());
    css.append("in ");
    css.append(height_text.as_str());
    css.append("in;\n}");
    css.append("\n}\n</style>");
    proof {
        assert(css@ =~= css_page_spec(instance_data.font, dims.width as int, dims.height as int));
    }
    let mut url = "data:text/html;charset=utf-8,".to_owned();
    url.append("<html><head><title>");
    url.append(title.as_str());
    url.append("</title>");
    url.append(css.as_str());
    url.append("</head><body>");
    url.append(escaped.as_str());
    url.append("</body></html>");
    proof {
        assert(url@ =~= nav_url_spec(
            title_spec(sm, name@),
            instance_data.font,
            dims.width as int,
            dims.height as int,
            query_escaped_of(generated_html@),
        ));
    }

    let mut output_file = instance_data.output_directory.clone();
    output_file.append("/");
    output_file.append(name.as_str());
    output_file.append(".pdf");
    proof {
        assert(output_file@ =~= instance_data.output_directory@ + "/"@ + name@ + ".pdf"@);
    }

    let doc_info = doc_info_entries(dictionary_entries, &strings, name.as_str());
    let creator = creator_entry(&strings);
    let producer = crate::metadata::producer_entry();
    let pdf_version = instance_data.pdf_version.version_string();

    RenderPlan {
        navigation_url: url,
        page_width: dims.width,
        page_height: dims.height,
        margins: instance_data.margins,
        pdf_version,
        output_file,
        doc_info,
        creator,
        producer,
    }
}

} // verus!
