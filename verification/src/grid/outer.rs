//! The state of one cell.

use vstd::prelude::*;

verus! {

/// One position of the grid is alive or dead; there is no third state.
#[derive(PartialEq, Eq, Debug, Clone, Copy, Structural)]
pub enum LifeCell {
    Alive,
    Dead,
}

} // verus!
