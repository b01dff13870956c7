//! User interface pieces: alignment, widget tags, the element tree, style
//! sheets and the arithmetic of widget layout.
use vstd::prelude::*;

pub mod sheet;
pub mod sort;
pub mod style;
pub mod tags;
pub mod checkbox;
pub mod computed;
pub mod debug;
pub mod element;
pub mod layout;
pub mod list;
pub mod select;

pub use tags::{Body, Button, Checkbox, Dialog, Div, Frame, List, ListItem, Select, SelectItem, Span};

verus! {

/// Where a widget, or its content, sits along one axis.
#[derive(PartialEq, Eq, Debug, Copy, Clone, Structural)]
pub enum Align {
    Min,
    Center,
    Max,
}

impl Align {
    pub const LEFT: Align = Align::Min;
    pub const CENTER: Align = Align::Center;
    pub const RIGHT: Align = Align::Max;
    pub const TOP: Align = Align::Min;
    pub const MIDDLE: Align = Align::Center;
    pub const BOTTOM: Align = Align::Max;
}

impl Default for Align {
    fn default() -> (a: Align)
        ensures
            a == Align::Min,
    {
        Align::Min
    }
}

} // verus!
