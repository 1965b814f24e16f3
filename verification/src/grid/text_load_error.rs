//! Why a text could not be loaded as a grid.

use std::path::PathBuf;
use vstd::prelude::*;

verus! {

/// `std::io::Error`, carried from the caller that read the file to the one that reports
/// it. Nothing here looks inside.
#[verifier::external_type_specification]
#[verifier::external_body]
pub struct ExIoError(std::io::Error);

/// `std::path::PathBuf`, carried through the states of a session. Nothing here looks
/// inside.
#[verifier::external_type_specification]
#[verifier::external_body]
pub struct ExPathBuf(PathBuf);

#[derive(Debug)]
pub enum TextLoadError {
    /// Reading the file failed for another reason than its absence.
    IoError(std::io::Error),
    /// There is no file at the path.
    NoFileFound(PathBuf),
    /// The character stands for neither a dead nor an alive cell.
    NotValidCellChar(char),
    /// A row is not as wide as the first one, whose width is given.
    UnEqualWidth(usize),
}

} // verus!
