use pdf_composer::FontsStandard;
use pdf_composer::PDFComposerStruct;
use pdf_composer::PDFVersion;
use pdf_composer::PageMargins;
use pdf_composer::PaperOrientation;
use pdf_composer::PaperSize;
use pdf_composer::oriented_dimensions;
use pdf_composer::parse_margins;

fn margins(top: u32, right: u32, bottom: u32, left: u32) -> PageMargins {
    PageMargins { top, right, bottom, left }
}

#[test]
fn margins_single_value_fills_all_sides() {
    assert_eq!(parse_margins("20"), (margins(20, 20, 20, 20), false));
}

#[test]
fn margins_malformed_token_falls_back_with_warning() {
    assert_eq!(parse_margins("abc"), (margins(10, 10, 10, 10), true));
    assert_eq!(parse_margins("10 abc"), (margins(10, 10, 10, 10), true));
    assert_eq!(parse_margins("-5"), (margins(10, 10, 10, 10), true));
    assert_eq!(parse_margins("1.5"), (margins(10, 10, 10, 10), true));
}

#[test]
fn margins_two_values_are_vertical_and_horizontal() {
    assert_eq!(parse_margins("10 20"), (margins(10, 20, 10, 20), false));
}

#[test]
fn margins_three_values_share_the_sides() {
    assert_eq!(parse_margins("1 2 3"), (margins(1, 2, 3, 2), false));
}

#[test]
fn margins_four_values_go_clockwise() {
    assert_eq!(parse_margins("1 2 3 4"), (margins(1, 2, 3, 4), false));
}

#[test]
fn margins_empty_input_defaults_silently() {
    assert_eq!(parse_margins(""), (margins(10, 10, 10, 10), false));
    assert_eq!(parse_margins("   "), (margins(10, 10, 10, 10), false));
}

#[test]
fn margins_too_many_values_default_silently() {
    assert_eq!(parse_margins("5 5 5 5 5"), (margins(10, 10, 10, 10), false));
}

#[test]
fn margins_tolerate_extra_spacing() {
    assert_eq!(parse_margins("  10   20 "), (margins(10, 20, 10, 20), false));
}

#[test]
fn margins_accept_a_leading_plus() {
    assert_eq!(parse_margins("+7"), (margins(7, 7, 7, 7), false));
}

#[test]
fn margins_accept_the_largest_u32() {
    assert_eq!(
        parse_margins("4294967295"),
        (margins(4294967295, 4294967295, 4294967295, 4294967295), false)
    );
    assert_eq!(parse_margins("4294967296"), (margins(10, 10, 10, 10), true));
}

#[test]
fn margins_out_of_range_number_warns() {
    assert_eq!(parse_margins("99999999999999999999"), (margins(10, 10, 10, 10), true));
}

#[test]
fn set_margins_installs_and_reports() {
    let mut c = PDFComposerStruct::new();
    assert!(!c.set_margins("20"));
    assert_eq!(c.margins, margins(20, 20, 20, 20));
    assert!(c.set_margins("abc"));
    assert_eq!(c.margins, margins(10, 10, 10, 10));
}

#[test]
fn paper_dimensions_in_tenths_of_an_inch() {
    let a4 = PaperSize::A4.to_dimensions();
    assert_eq!((a4.width, a4.height), (83, 117));
    let letter = PaperSize::Letter.to_dimensions();
    assert_eq!((letter.width, letter.height), (85, 110));
    let jisb0 = PaperSize::JISB0.to_dimensions();
    assert_eq!((jisb0.width, jisb0.height), (406, 573));
}

#[test]
fn landscape_swaps_the_page() {
    let p = oriented_dimensions(PaperSize::A4, PaperOrientation::Portrait);
    assert_eq!((p.width, p.height), (83, 117));
    let l = oriented_dimensions(PaperSize::A4, PaperOrientation::Landscape);
    assert_eq!((l.width, l.height), (117, 83));
}

#[test]
fn version_tags() {
    assert_eq!(PDFVersion::V1_7.version_string(), "1.7");
    assert_eq!(PDFVersion::V2_0.version_string(), "2.0");
}

#[test]
fn font_css_triples() {
    assert_eq!(
        FontsStandard::Helvetica.get_css_name(),
        (
            "Helvetica, sans-serif".to_string(),
            "normal".to_string(),
            "normal".to_string()
        )
    );
    assert_eq!(
        FontsStandard::TimesBoldItalic.get_css_name(),
        (
            "'Times New Roman', Times, serif".to_string(),
            "bold".to_string(),
            "italic".to_string()
        )
    );
    assert_eq!(
        FontsStandard::CourierOblique.get_css_name(),
        (
            "Courier, monospace".to_string(),
            "normal".to_string(),
            "italic".to_string()
        )
    );
    assert_eq!(
        FontsStandard::ZapfDingbats.get_css_name(),
        (
            "'Zapf Dingbats'".to_string(),
            "normal".to_string(),
            "normal".to_string()
        )
    );
}
