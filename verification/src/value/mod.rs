//! Keys for looking values up, and their conversions.

pub mod key;
pub use key::Key;

use vstd::prelude::*;

verus! {

/// Why a conversion failed.
#[derive(Debug, Copy, Clone, PartialEq, Eq, Structural)]
pub enum DataConvertError {
    WrongType,
    Negative,
}

} // verus!
