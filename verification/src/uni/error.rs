//! Errors of the binding layer.

use vstd::prelude::*;

verus! {

/// An error reported across the binding layer.
#[derive(Debug)]
pub enum UniError {
    /// A validator could not be built.
    Validator(String),
    /// A UUID could not be read.
    Uuid(String),
    /// Any other failure.
    General(String),
}

} // verus!
