//! A keyboard layout value: the display name the compositor reports, with
//! the fixed table mapping the recognized names to compositor codes.

use vstd::prelude::*;
use vstd::string::*;

use crate::text::str_eq;

verus! {

/// Name of the layout every window starts with, and the one an overlay
/// asks for.
pub open spec fn default_layout_name() -> Seq<char> {
    "English (US)"@
}

/// The compositor code table: the recognized layout names and their
/// numeric codes; every other name has no code.
pub open spec fn layout_code(name: Seq<char>) -> Option<Seq<char>> {
    if name == "English (US)"@ {
        Some("0"@)
    } else if name == "Russian"@ {
        Some("1"@)
    } else {
        None
    }
}

/// A keyboard layout, identified by the display name the compositor
/// reports.  Equality of layouts is exact equality of names.
pub struct Layout {
    layout: String,
}

impl View for Layout {
    type V = Seq<char>;

    closed spec fn view(&self) -> Seq<char> {
        self.layout@
    }
}

impl Clone for Layout {
    fn clone(&self) -> (r: Self)
        ensures
            r@ == self@,
    {
        Layout { layout: self.layout.clone() }
    }
}

impl Layout {
    /// Wraps a name verbatim; total, never fails.
    pub fn new(layout: String) -> (l: Layout)
        ensures
            l@ == layout@,
    {
        Layout { layout }
    }

    /// The compositor code for this layout's name, looked up in the fixed
    /// table; absent for any unrecognized name.
    pub fn code(&self) -> (r: Option<&'static str>)
        ensures
            r.deep_view() == layout_code(self@),
    {
        if str_eq(self.layout.as_str(), "English (US)") {
            Some("0")
        } else if str_eq(self.layout.as_str(), "Russian") {
            Some("1")
        } else {
            None
        }
    }

    /// The layout's display name.
    pub fn get_layout(&self) -> (r: &String)
        ensures
            r@ == self@,
    {
        &self.layout
    }
}

/// The layout every window starts with.
pub fn default_layout() -> (l: Layout)
    ensures
        l@ == default_layout_name(),
{
    Layout::new(String::from_str("English (US)"))
}

} // verus!
