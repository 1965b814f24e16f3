//! Why what was entered cannot be played.

use crate::grid::text_load_error::TextLoadError;
use crate::grid::InvalidCharCell;
use vstd::prelude::*;
use vstd::std_specs::convert::FromSpecImpl;

verus! {

#[derive(Debug)]
pub enum ValidationError {
    /// The file could not be read, or what it holds is no grid.
    FailureInLoad(TextLoadError),
    /// The time is not a positive number.
    NotNumberForTime,
    /// One of the two texts for the cells is not one character.
    InvalidChars(InvalidCharCell),
}

impl From<TextLoadError> for ValidationError {
    fn from(value: TextLoadError) -> (error: Self) {
        Self::FailureInLoad(value)
    }
}

impl FromSpecImpl<TextLoadError> for ValidationError {
    open spec fn obeys_from_spec() -> bool {
        true
    }

    open spec fn from_spec(value: TextLoadError) -> Self {
        Self::FailureInLoad(value)
    }
}

impl From<InvalidCharCell> for ValidationError {
    fn from(value: InvalidCharCell) -> (error: Self) {
        Self::InvalidChars(value)
    }
}

impl FromSpecImpl<InvalidCharCell> for ValidationError {
    open spec fn obeys_from_spec() -> bool {
        true
    }

    open spec fn from_spec(value: InvalidCharCell) -> Self {
        Self::InvalidChars(value)
    }
}

} // verus!
