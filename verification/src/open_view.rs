//! The view in which a file, the two characters and the interval are chosen, and the
//! steps that lead from a chosen file to a game.
//!
//! Reading the file is left to the caller. `begin_load` says which file to read and
//! `finish_load` takes what was read, so that nothing is read before the interval and
//! the two characters were found valid.

pub mod data_file_state;
pub mod gathered_open_view_data;
pub mod time;
pub mod validation_error;

pub use data_file_state::DataFileState;
pub use gathered_open_view_data::GatheredOpenViewData;
pub use time::{time_unit_from_selection, time_unit_from_selection_spec, SelectedTime, TimeUnit};
pub use validation_error::ValidationError;

use crate::constants::{ALIVE_CHAR, DEAD_CHAR, TICK_DURATION_SECS};
use crate::game_view::{GameState, GameView};
use crate::grid::dead_alive_char_cells::only_char;
use crate::grid::text_data::{has_cells, text_fault, text_rows};
use crate::grid::text_load_error::TextLoadError;
use crate::grid::{DeadAliveCharCell, Grid, GridState, InvalidCharCell, TextData};
use crate::text::{char_string, decimal, decimal_string, parse_u32, spec_parse_u32};
use crate::CurrentView;
use std::path::PathBuf;
use vstd::prelude::*;

verus! {

pub struct OpenView {
    pub dead_char_code: char,
    pub alive_char_code: char,
    pub selected_time: SelectedTime,
    pub dead_char_input: String,
    pub alive_char_input: String,
    pub time_interval: String,
    pub game_file_state: DataFileState,
}

/// The file that is to be read, and the two characters to read it with.
pub struct FileToLoad {
    pub path: PathBuf,
    pub dead_alive_chars: DeadAliveCharCell,
}

/// The interval that `text` stands for: a number, as `spec_parse_u32` reads it, that is
/// not zero.
pub open spec fn interval_of(text: Seq<char>) -> Option<u32> {
    match spec_parse_u32(text) {
        Some(amount) => if amount > 0 {
            Some(amount)
        } else {
            None
        },
        None => None,
    }
}

/// What is wrong with what was entered, if anything: the time comes before the text
/// for the dead cell, and that before the text for the alive cell.
pub open spec fn input_fault(time: Seq<char>, dead: Seq<char>, alive: Seq<char>) -> Option<
    ValidationError,
> {
    if interval_of(time) is None {
        Some(ValidationError::NotNumberForTime)
    } else if only_char(dead) is None {
        Some(ValidationError::InvalidChars(InvalidCharCell::TooLongForDead))
    } else if only_char(alive) is None {
        Some(ValidationError::InvalidChars(InvalidCharCell::TooLongForAlive))
    } else {
        None
    }
}

/// What the text of a file is found to be: a grid, or the fault of the text.
pub fn validate_file_content(text: &str, dead_alive_cell_chars: DeadAliveCharCell) -> (result:
    Result<TextData, ValidationError>)
    requires
        has_cells(text@),
    ensures
        match result {
            Ok(data) => {
                &&& text_fault(
                    text@,
                    dead_alive_cell_chars.spec_dead(),
                    dead_alive_cell_chars.spec_alive(),
                ) is None
                &&& data.rows() == text_rows(text@)
                &&& data.spec_dead_char() == dead_alive_cell_chars.spec_dead()
                &&& data.spec_alive_char() == dead_alive_cell_chars.spec_alive()
            },
            Err(error) => error matches ValidationError::FailureInLoad(fault) && text_fault(
                text@,
                dead_alive_cell_chars.spec_dead(),
                dead_alive_cell_chars.spec_alive(),
            ) == Some(fault),
        },
{
    match TextData::new(text, dead_alive_cell_chars) {
        Err(error) => Err(ValidationError::from(error)),
        Ok(data) => Ok(data),
    }
}

impl OpenView {
    /// Whether the view stands for `gathered`: the file is loaded, and what is entered
    /// is what `gathered` was made from.
    pub open spec fn shows(self, gathered: GatheredOpenViewData) -> bool {
        &&& self.dead_char_code == gathered.dead_char_code
        &&& self.alive_char_code == gathered.alive_char_code
        &&& self.selected_time == gathered.selected_time
        &&& self.dead_char_input@ == seq![gathered.dead_char_code]
        &&& self.alive_char_input@ == seq![gathered.alive_char_code]
        &&& self.time_interval@ == decimal(gathered.time_interval.amount() as nat)
        &&& self.game_file_state matches DataFileState::Loaded { path, game }
        &&& path == gathered.path
        &&& game@ == gathered.game@
    }

    /// Whether what is entered in `other` is what is entered in `self`.
    pub open spec fn same_inputs(self, other: OpenView) -> bool {
        &&& other.dead_char_code == self.dead_char_code
        &&& other.alive_char_code == self.alive_char_code
        &&& other.selected_time == self.selected_time
        &&& other.dead_char_input@ == self.dead_char_input@
        &&& other.alive_char_input@ == self.alive_char_input@
        &&& other.time_interval@ == self.time_interval@
    }

    /// A view in which no file is chosen yet and the given values are entered.
    pub fn with_defaults(dead_char_code: char, alive_char_code: char, tick_secs: u32) -> (view:
        Self)
        ensures
            view.dead_char_code == dead_char_code,
            view.alive_char_code == alive_char_code,
            view.selected_time == SelectedTime::Seconds,
            view.dead_char_input@ == seq![dead_char_code],
            view.alive_char_input@ == seq![alive_char_code],
            view.time_interval@ == decimal(tick_secs as nat),
            view.game_file_state is NotChoosen,
    {
        Self {
            dead_char_code,
            alive_char_code,
            game_file_state: DataFileState::NotChoosen,
            selected_time: SelectedTime::default(),
            dead_char_input: char_string(dead_char_code),
            alive_char_input: char_string(alive_char_code),
            time_interval: decimal_string(tick_secs),
        }
    }

    /// The view that a game goes back to.
    pub fn new(gathered: GatheredOpenViewData) -> (view: Self)
        ensures
            view.shows(gathered),
    {
        let dead_char_code = gathered.dead_char_code;
        let alive_char_code = gathered.alive_char_code;
        Self {
            dead_char_code,
            alive_char_code,
            game_file_state: DataFileState::Loaded { game: gathered.game, path: gathered.path },
            selected_time: gathered.selected_time,
            dead_char_input: char_string(dead_char_code),
            alive_char_input: char_string(alive_char_code),
            time_interval: gathered.time_interval.to_string(),
        }
    }

    /// A file was picked: whatever was chosen or loaded before is let go.
    pub fn choose_file(&mut self, path: PathBuf)
        ensures
            final(self).game_file_state == (DataFileState::Choosen { path }),
            old(self).same_inputs(*final(self)),
    {
        self.game_file_state = DataFileState::Choosen { path };
    }

    /// Whether there is anything to play: a file has to be chosen first.
    pub fn can_play(&self) -> (enable_play_button: bool)
        ensures
            enable_play_button == !(self.game_file_state is NotChoosen),
    {
        match &self.game_file_state {
            DataFileState::NotChoosen => false,
            DataFileState::Choosen { .. } => true,
            DataFileState::Invalid { .. } => true,
            DataFileState::Loaded { .. } => true,
        }
    }

    /// Takes the path out of the view where a file is chosen and not loaded.
    pub fn try_query_loaded_file(&mut self) -> (found: Option<PathBuf>)
        ensures
            match old(self).game_file_state {
                DataFileState::Choosen { path } => found == Some(path) && final(self).game_file_state is NotChoosen,
                DataFileState::Invalid { path, .. } => found == Some(path) && final(self).game_file_state is NotChoosen,
                _ => found is None && final(self).game_file_state == old(self).game_file_state,
            },
            old(self).same_inputs(*final(self)),
    {
        let mut taken = DataFileState::NotChoosen;
        std::mem::swap(&mut self.game_file_state, &mut taken);
        match taken {
            DataFileState::Choosen { path } => Some(path),
            DataFileState::Invalid { path, .. } => Some(path),
            other => {
                self.game_file_state = other;
                None
            },
        }
    }

    /// The interval that is entered, which has to be a positive number.
    pub fn try_parse_interval_time(&self) -> (result: Result<u32, ValidationError>)
        ensures
            match result {
                Ok(valid_number) => interval_of(self.time_interval@) == Some(valid_number),
                Err(error) => error is NotNumberForTime && interval_of(self.time_interval@) is None,
            },
    {
        match parse_u32(self.time_interval.as_str()) {
            Some(valid_number) => {
                if valid_number > 0 {
                    Ok(valid_number)
                } else {
                    Err(ValidationError::NotNumberForTime)
                }
            },
            None => Err(ValidationError::NotNumberForTime),
        }
    }

    /// The two characters that are entered.
    pub fn validate_given_chars_for_game(&self) -> (result: Result<
        DeadAliveCharCell,
        ValidationError,
    >)
        ensures
            match result {
                Ok(valid_dead_alive) => only_char(self.dead_char_input@) == Some(
                    valid_dead_alive.spec_dead(),
                ) && only_char(self.alive_char_input@) == Some(valid_dead_alive.spec_alive()),
                Err(error) => error matches ValidationError::InvalidChars(fault) && (match fault {
                    InvalidCharCell::TooLongForDead => only_char(self.dead_char_input@) is None,
                    InvalidCharCell::TooLongForAlive => only_char(self.dead_char_input@) is Some
                        && only_char(self.alive_char_input@) is None,
                }),
            },
    {
        match DeadAliveCharCell::new(self.dead_char_input.as_str(), self.alive_char_input.as_str()) {
            Err(error) => Err(ValidationError::from(error)),
            Ok(valid_dead_alive) => Ok(valid_dead_alive),
        }
    }

    /// The first step from a chosen file to a game. Where a file is chosen and not
    /// loaded, what is entered is looked at: if it is valid, the file is to be read
    /// and handed to `finish_load`; if not, the view says what is wrong. In every other
    /// state nothing happens.
    pub fn begin_load(&mut self) -> (to_load: Option<FileToLoad>)
        ensures
            old(self).same_inputs(*final(self)),
            match old(self).game_file_state {
                DataFileState::NotChoosen | DataFileState::Loaded { .. } => to_load is None
                    && final(self).game_file_state == old(self).game_file_state,
                _ => match input_fault(
                    old(self).time_interval@,
                    old(self).dead_char_input@,
                    old(self).alive_char_input@,
                ) {
                    Some(fault) => to_load is None && final(self).game_file_state
                        == (DataFileState::Invalid {
                        path: old(self).game_file_state.spec_path()->0,
                        error: fault,
                    }),
                    None => {
                        &&& final(self).game_file_state is NotChoosen
                        &&& to_load matches Some(file)
                        &&& Some(file.path) == old(self).game_file_state.spec_path()
                        &&& Some(file.dead_alive_chars.spec_dead()) == only_char(
                            old(self).dead_char_input@,
                        )
                        &&& Some(file.dead_alive_chars.spec_alive()) == only_char(
                            old(self).alive_char_input@,
                        )
                    },
                },
            },
    {
        let path = match self.try_query_loaded_file() {
            Some(path) => path,
            None => {
                return None;
            },
        };
        match self.try_parse_interval_time() {
            Ok(_) => {},
            Err(error) => {
                self.game_file_state = DataFileState::Invalid { path, error };
                return None;
            },
        }
        match self.validate_given_chars_for_game() {
            Ok(dead_alive_chars) => Some(FileToLoad { path, dead_alive_chars }),
            Err(error) => {
                self.game_file_state = DataFileState::from((path, error));
                None
            },
        }
    }

    /// The second step: `read` is what reading the file of `to_load` gave. A text that
    /// is a grid leaves the view loaded with that grid; a text that is none, or a file
    /// that could not be read, leaves it invalid with the reason. A text that was read
    /// has to have a first line with a cell in it.
    pub fn finish_load(&mut self, to_load: FileToLoad, read: Result<String, TextLoadError>)
        requires
            read matches Ok(text) ==> has_cells(text@),
        ensures
            old(self).same_inputs(*final(self)),
            match read {
                Err(fault) => final(self).game_file_state == (DataFileState::Invalid {
                    path: to_load.path,
                    error: ValidationError::FailureInLoad(fault),
                }),
                Ok(text) => match text_fault(
                    text@,
                    to_load.dead_alive_chars.spec_dead(),
                    to_load.dead_alive_chars.spec_alive(),
                ) {
                    Some(fault) => final(self).game_file_state == (DataFileState::Invalid {
                        path: to_load.path,
                        error: ValidationError::FailureInLoad(fault),
                    }),
                    None => {
                        &&& final(self).game_file_state matches DataFileState::Loaded { path, game }
                        &&& path == to_load.path
                        &&& game@ == GridState::of_rows(
                            text_rows(text@),
                            to_load.dead_alive_chars.spec_dead(),
                        )
                    },
                },
            },
    {
        let FileToLoad { path, dead_alive_chars } = to_load;
        let text = match read {
            Ok(text) => text,
            Err(fault) => {
                self.game_file_state = DataFileState::from((path, ValidationError::from(fault)));
                return ;
            },
        };
        match validate_file_content(text.as_str(), dead_alive_chars) {
            Ok(text_data) => {
                let game = Grid::new(text_data);
                self.game_file_state = DataFileState::Loaded { path, game };
            },
            Err(error) => {
                self.game_file_state = DataFileState::from((path, error));
            },
        }
    }

    /// Play was asked for. Where a grid is loaded and the interval that is entered is
    /// valid, the grid goes into a game whose timer runs; where the interval is not
    /// valid, the view says so and lets the grid go. Without a loaded grid nothing
    /// happens.
    pub fn try_to_play_game(&mut self) -> (to_maybe_play: Option<CurrentView>)
        ensures
            old(self).same_inputs(*final(self)),
            match old(self).game_file_state {
                DataFileState::Loaded { path, game } => match interval_of(old(self).time_interval@) {
                    Some(amount) => {
                        &&& final(self).game_file_state is NotChoosen
                        &&& to_maybe_play matches Some(CurrentView::Game(game_view))
                        &&& game_view@.wf()
                        &&& exists|now: nat|
                            game_view@ == #[trigger] GameState::started(
                                game@,
                                time_unit_from_selection_spec(
                                    old(self).selected_time,
                                    amount,
                                ).nanos(),
                                now,
                            )
                        &&& game_view.spec_previous_view().path == path
                        &&& game_view.spec_previous_view().dead_char_code == old(self).dead_char_code
                        &&& game_view.spec_previous_view().alive_char_code == old(self).alive_char_code
                        &&& game_view.spec_previous_view().selected_time == old(self).selected_time
                        &&& game_view.spec_previous_view().time_interval
                            == time_unit_from_selection_spec(old(self).selected_time, amount)
                    },
                    None => to_maybe_play is None && final(self).game_file_state
                        == (DataFileState::Invalid {
                        path,
                        error: ValidationError::NotNumberForTime,
                    }),
                },
                _ => to_maybe_play is None && final(self).game_file_state == old(self).game_file_state,
            },
    {
        let mut taken = DataFileState::NotChoosen;
        std::mem::swap(&mut self.game_file_state, &mut taken);
        let (path, game) = match taken {
            DataFileState::Loaded { path, game } => (path, game),
            other => {
                self.game_file_state = other;
                return None;
            },
        };
        let valid_number = match self.try_parse_interval_time() {
            Ok(valid_number) => valid_number,
            Err(error) => {
                self.game_file_state = DataFileState::Invalid { path, error };
                return None;
            },
        };
        let time_interval = time_unit_from_selection(self.selected_time, valid_number);
        let gathered = GatheredOpenViewData {
            alive_char_code: self.alive_char_code,
            dead_char_code: self.dead_char_code,
            game,
            path,
            selected_time: self.selected_time,
            time_interval,
        };
        Some(CurrentView::Game(GameView::new(gathered)))
    }
}

impl Default for OpenView {
    fn default() -> (view: Self)
        ensures
            view.dead_char_code == DEAD_CHAR,
            view.alive_char_code == ALIVE_CHAR,
            view.selected_time == SelectedTime::Seconds,
            view.dead_char_input@ == seq![DEAD_CHAR],
            view.alive_char_input@ == seq![ALIVE_CHAR],
            view.time_interval@ == decimal(TICK_DURATION_SECS as nat),
            view.game_file_state is NotChoosen,
    {
        Self::with_defaults(DEAD_CHAR, ALIVE_CHAR, TICK_DURATION_SECS)
    }
}

} // verus!
