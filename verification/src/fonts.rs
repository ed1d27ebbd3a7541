//! The fourteen standard PostScript fonts and their CSS renderings.

use vstd::prelude::*;

verus! {

/// The standard PostScript fonts a document may be set in.
#[derive(Clone, Copy, Debug, PartialEq, Eq, Structural)]
pub enum FontsStandard {
    /// Courier.
    Courier,
    /// Courier bold.
    CourierBold,
    /// Courier bold italic.
    CourierBoldOblique,
    /// Courier italic.
    CourierOblique,
    /// Helvetica.
    Helvetica,
    /// Helvetica bold.
    HelveticaBold,
    /// Helvetica bold italic.
    HelveticaBoldOblique,
    /// Helvetica italic.
    HelveticaOblique,
    /// Symbol.
    Symbol,
    /// Times bold.
    TimesBold,
    /// Times bold italic.
    TimesBoldItalic,
    /// Times italic.
    TimesItalic,
    /// Times Roman.
    TimesRoman,
    /// Zapf Dingbats.
    ZapfDingbats,
}

/// The CSS font-family stack for a font.
pub open spec fn css_font_family(f: FontsStandard) -> Seq<char> {
    match f {
        FontsStandard::Courier | FontsStandard::CourierBold | FontsStandard::CourierBoldOblique
            | FontsStandard::CourierOblique => "Courier, monospace"@,
        FontsStandard::Helvetica | FontsStandard::HelveticaBold
            | FontsStandard::HelveticaBoldOblique | FontsStandard::HelveticaOblique
            => "Helvetica, sans-serif"@,
        FontsStandard::Symbol => "Symbol"@,
        FontsStandard::TimesBold | FontsStandard::TimesBoldItalic | FontsStandard::TimesItalic
            | FontsStandard::TimesRoman => "'Times New Roman', Times, serif"@,
        FontsStandard::ZapfDingbats => "'Zapf Dingbats'"@,
    }
}

/// The CSS font-weight for a font.
pub open spec fn css_font_weight(f: FontsStandard) -> Seq<char> {
    match f {
        FontsStandard::CourierBold | FontsStandard::CourierBoldOblique
            | FontsStandard::HelveticaBold | FontsStandard::HelveticaBoldOblique
            | FontsStandard::TimesBold | FontsStandard::TimesBoldItalic => "bold"@,
        _ => "normal"@,
    }
}

/// The CSS font-style for a font.
pub open spec fn css_font_style(f: FontsStandard) -> Seq<char> {
    match f {
        FontsStandard::CourierBoldOblique | FontsStandard::CourierOblique
            | FontsStandard::HelveticaBoldOblique | FontsStandard::HelveticaOblique
            | FontsStandard::TimesBoldItalic | FontsStandard::TimesItalic => "italic"@,
        _ => "normal"@,
    }
}

impl FontsStandard {
    /// The CSS font-family, font-weight, and font-style triple for the font.
    pub fn get_css_name(&self) -> (r: (String, String, String))
        ensures
            r.0@ == css_font_family(*self),
            r.1@ == css_font_weight(*self),
            r.2@ == css_font_style(*self),
    {
        let font_name = match self {
            FontsStandard::Courier | FontsStandard::CourierBold
                | FontsStandard::CourierBoldOblique | FontsStandard::CourierOblique
                => "Courier, monospace",
            FontsStandard::Helvetica | FontsStandard::HelveticaBold
                | FontsStandard::HelveticaBoldOblique | FontsStandard::HelveticaOblique
                => "Helvetica, sans-serif",
            FontsStandard::Symbol => "Symbol",
            FontsStandard::TimesBold | FontsStandard::TimesBoldItalic
                | FontsStandard::TimesItalic | FontsStandard::TimesRoman
                => "'Times New Roman', Times, serif",
            FontsStandard::ZapfDingbats => "'Zapf Dingbats'",
        };
        let font_weight = match self {
            FontsStandard::CourierBold | FontsStandard::CourierBoldOblique
                | FontsStandard::HelveticaBold | FontsStandard::HelveticaBoldOblique
                | FontsStandard::TimesBold | FontsStandard::TimesBoldItalic => "bold",
            _ => "normal",
        };
        let font_style = match self {
            FontsStandard::CourierBoldOblique | FontsStandard::CourierOblique
                | FontsStandard::HelveticaBoldOblique | FontsStandard::HelveticaOblique
                | FontsStandard::TimesBoldItalic | FontsStandard::TimesItalic => "italic",
            _ => "normal",
        };
        (font_name.to_owned(), font_weight.to_owned(), font_style.to_owned())
    }
}

} // verus!
