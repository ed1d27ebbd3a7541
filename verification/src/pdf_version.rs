//! The supported versions of the PDF specification.

use vstd::prelude::*;

verus! {

/// A version of the PDF specification that a document can be stamped with.
#[derive(Clone, Copy, Debug, PartialEq, Eq, Structural)]
pub enum PDFVersion {
    /// PDF version 1.7.
    V1_7,
    /// PDF version 2.0.
    V2_0,
}

/// The version tag written into a PDF document.
pub open spec fn version_string_spec(v: PDFVersion) -> Seq<char> {
    match v {
        PDFVersion::V1_7 => "1.7"@,
        PDFVersion::V2_0 => "2.0"@,
    }
}

impl PDFVersion {
    /// The version tag as text.
    pub fn version_string(&self) -> (r: String)
        ensures
            r@ == version_string_spec(*self),
    {
        match self {
            PDFVersion::V1_7 => "1.7".to_owned(),
            PDFVersion::V2_0 => "2.0".to_owned(),
        }
    }
}

} // verus!
