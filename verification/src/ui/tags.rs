//! The tags of the widgets: each names the kind of element that it builds.
use vstd::prelude::*;

verus! {

/// The page that holds every other widget.
pub struct Body {}

/// A push button.
pub struct Button {}

/// A box that can be checked, or that counts.
pub struct Checkbox {}

/// A dialog: a page laid over another.
pub struct Dialog {}

/// A plain vertical container.
pub struct Div {}

/// A container drawn with a border and an optional title.
pub struct Frame {}

/// A bulleted list.
pub struct List {}

/// One entry of a list.
pub struct ListItem {}

/// A set of options of which one or more can be chosen.
pub struct Select {}

/// One option of a select.
pub struct SelectItem {}

/// A horizontal container.
pub struct Span {}

impl Body {
    /// The tag's name, as style sheets write it.
    pub fn as_str(&self) -> (s: &'static str)
        ensures
            s@ == "body"@,
    {
        "body"
    }
}

impl Button {
    /// The tag's name, as style sheets write it.
    pub fn as_str(&self) -> (s: &'static str)
        ensures
            s@ == "button"@,
    {
        "button"
    }
}

impl Checkbox {
    /// The tag's name, as style sheets write it.
    pub fn as_str(&self) -> (s: &'static str)
        ensures
            s@ == "checkbox"@,
    {
        "checkbox"
    }
}

impl Dialog {
    /// The tag's name, as style sheets write it.
    pub fn as_str(&self) -> (s: &'static str)
        ensures
            s@ == "dialog"@,
    {
        "dialog"
    }
}

impl Div {
    /// The tag's name, as style sheets write it.
    pub fn as_str(&self) -> (s: &'static str)
        ensures
            s@ == "div"@,
    {
        "div"
    }
}

impl Frame {
    /// The tag's name, as style sheets write it.
    pub fn as_str(&self) -> (s: &'static str)
        ensures
            s@ == "frame"@,
    {
        "frame"
    }
}

impl List {
    /// The tag's name, as style sheets write it.
    pub fn as_str(&self) -> (s: &'static str)
        ensures
            s@ == "list"@,
    {
        "list"
    }
}

impl ListItem {
    /// The tag's name, as style sheets write it.
    pub fn as_str(&self) -> (s: &'static str)
        ensures
            s@ == "item"@,
    {
        "item"
    }
}

impl Select {
    /// The tag's name, as style sheets write it.
    pub fn as_str(&self) -> (s: &'static str)
        ensures
            s@ == "select"@,
    {
        "select"
    }
}

impl SelectItem {
    /// The tag's name, as style sheets write it.
    pub fn as_str(&self) -> (s: &'static str)
        ensures
            s@ == "item"@,
    {
        "item"
    }
}

impl Span {
    /// The tag's name, as style sheets write it.
    pub fn as_str(&self) -> (s: &'static str)
        ensures
            s@ == "span"@,
    {
        "span"
    }
}

} // verus!
