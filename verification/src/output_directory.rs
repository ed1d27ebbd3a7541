//! The output-directory argument, accepted from any type that can denote a
//! path.

use vstd::prelude::*;

verus! {

/// A value that denotes the directory generated documents are saved into.
pub trait OutputDirectory {
    /// The path the value denotes.
    spec fn path_view(&self) -> Seq<char>;

    /// Converts the value into the path it denotes.
    fn convert(&self) -> (r: String)
        ensures
            r@ == self.path_view(),
    ;
}

impl OutputDirectory for &str {
    open spec fn path_view(&self) -> Seq<char> {
        (*self)@
    }

    fn convert(&self) -> (r: String) {
        (*self).to_owned()
    }
}

impl OutputDirectory for String {
    open spec fn path_view(&self) -> Seq<char> {
        self@
    }

    fn convert(&self) -> (r: String) {
        self.clone()
    }
}

} // verus!
