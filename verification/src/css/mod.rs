//! CSS-like selectors and which elements they pick out.
pub mod matching;
pub mod selector;
pub mod tokens;

pub use selector::{Matcher, MatcherView, Selector};
