//! What a game is played from, and goes back to when it is reset.

use super::time::{SelectedTime, TimeUnit};
use crate::grid::Grid;
use std::path::PathBuf;
use vstd::prelude::*;

verus! {

/// `PathBuf::clone`: the copy is the same path.
pub assume_specification[ <PathBuf as Clone>::clone ](path: &PathBuf) -> (copy: PathBuf)
    ensures
        copy == *path,
;

pub struct GatheredOpenViewData {
    pub dead_char_code: char,
    pub alive_char_code: char,
    pub selected_time: SelectedTime,
    pub time_interval: TimeUnit,
    pub game: Grid,
    pub path: PathBuf,
}

impl GatheredOpenViewData {
    /// Whether `other` holds the same as `self`.
    pub open spec fn same(self, other: GatheredOpenViewData) -> bool {
        &&& other.dead_char_code == self.dead_char_code
        &&& other.alive_char_code == self.alive_char_code
        &&& other.selected_time == self.selected_time
        &&& other.time_interval == self.time_interval
        &&& other.game@ == self.game@
        &&& other.path == self.path
    }

    pub fn clone_game(&self) -> (game: Grid)
        ensures
            game@ == self.game@,
    {
        self.game.clone()
    }

    pub fn time_interval(&self) -> (time_interval: TimeUnit)
        ensures
            time_interval == self.time_interval,
    {
        self.time_interval
    }
}

impl Clone for GatheredOpenViewData {
    fn clone(&self) -> (copy: Self)
        ensures
            self.same(copy),
    {
        Self {
            dead_char_code: self.dead_char_code,
            alive_char_code: self.alive_char_code,
            selected_time: self.selected_time,
            time_interval: self.time_interval,
            game: self.game.clone(),
            path: self.path.clone(),
        }
    }
}

} // verus!
