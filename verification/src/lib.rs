//! Console application toolkit: colors, color parsing and palettes, CSS-like
//! selectors and style sheets, and the small computations behind the widgets.
#![allow(unused_imports)]

pub mod color;
pub mod text;
pub mod css;
pub mod value;
pub mod panel;
pub mod draw;
pub mod font;
pub mod img;
pub mod input;
pub mod load_screen;
pub mod loader;
pub mod ui;
