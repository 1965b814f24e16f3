//! Conway's Game of Life on a fixed torus: the grid and its rule, the loader that
//! turns a text into a grid, the timer that paces the generations, and the states
//! a session moves through.

pub mod constants;
pub mod game_view;
pub mod grid;
pub mod open_view;
pub mod text;
pub mod timer;

use game_view::GameView;
use open_view::OpenView;
use vstd::prelude::*;

verus! {

/// A session is in one of two views: a file is being chosen, or a game is played.
pub enum CurrentView {
    Game(GameView),
    Open(OpenView),
}

} // verus!
