//! What a new session starts from.

use vstd::prelude::*;

verus! {

/// The character that stands for an alive cell, unless another is entered.
pub const ALIVE_CHAR: char = 'x';

/// The character that stands for a dead cell, unless another is entered.
pub const DEAD_CHAR: char = '*';

/// The seconds between two generations, unless another interval is entered.
pub const TICK_DURATION_SECS: u32 = 1;

} // verus!
