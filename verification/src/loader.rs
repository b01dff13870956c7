//! Errors of loading files.
use vstd::prelude::*;

verus! {

/// An I/O error (`std::io::Error`), carried through unchanged.
#[verifier::external_type_specification]
#[verifier::external_body]
pub struct ExIoError(std::io::Error);

/// Why loading a file failed.
#[derive(Debug)]
pub enum LoadError {
    OpenError(std::io::Error),
    ReadError(std::io::Error),
    ParseError(String),
    ProcessError(String),
}

} // verus!
