//! How far the choice of a file has come.

use super::validation_error::ValidationError;
use crate::grid::Grid;
use std::path::PathBuf;
use vstd::prelude::*;
use vstd::std_specs::convert::FromSpecImpl;

verus! {

pub enum DataFileState {
    NotChoosen,
    Choosen { path: PathBuf },
    Invalid { path: PathBuf, error: ValidationError },
    Loaded { path: PathBuf, game: Grid },
}

impl Default for DataFileState {
    fn default() -> (state: Self)
        ensures
            state is NotChoosen,
    {
        Self::NotChoosen
    }
}

impl From<(PathBuf, ValidationError)> for DataFileState {
    fn from(value: (PathBuf, ValidationError)) -> (state: Self) {
        DataFileState::Invalid { path: value.0, error: value.1 }
    }
}

impl FromSpecImpl<(PathBuf, ValidationError)> for DataFileState {
    open spec fn obeys_from_spec() -> bool {
        true
    }

    open spec fn from_spec(value: (PathBuf, ValidationError)) -> Self {
        DataFileState::Invalid { path: value.0, error: value.1 }
    }
}

impl DataFileState {
    /// The path of the file, once one is chosen.
    pub open spec fn spec_path(self) -> Option<PathBuf> {
        match self {
            DataFileState::NotChoosen => None,
            DataFileState::Choosen { path } => Some(path),
            DataFileState::Invalid { path, .. } => Some(path),
            DataFileState::Loaded { path, .. } => Some(path),
        }
    }
}

} // verus!
