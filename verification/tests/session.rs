use game_of_life::constants::{ALIVE_CHAR, DEAD_CHAR, TICK_DURATION_SECS};
use game_of_life::game_view::GameView;
use game_of_life::grid::text_load_error::TextLoadError;
use game_of_life::grid::{DeadAliveCharCell, Grid, InvalidCharCell, LifeCell, TextData};
use game_of_life::open_view::{
    time_unit_from_selection, validate_file_content, DataFileState, GatheredOpenViewData, OpenView,
    SelectedTime, TimeUnit, ValidationError,
};
use game_of_life::timer::Span;
use game_of_life::CurrentView;
use std::path::PathBuf;

const MS: u128 = 1_000_000;

fn grid_of(text: &str) -> Grid {
    let chars = DeadAliveCharCell::new("*", "x").unwrap();
    Grid::new(TextData::new(text, chars).unwrap())
}

fn blinker() -> GatheredOpenViewData {
    GatheredOpenViewData {
        dead_char_code: '*',
        alive_char_code: 'x',
        selected_time: SelectedTime::MsSeconds,
        time_interval: TimeUnit::MsSeconds(1000),
        game: grid_of("*****\n**x**\n**x**\n**x**\n*****"),
        path: PathBuf::from("blinker.txt"),
    }
}

const UPRIGHT: &str = "*****\n**x**\n**x**\n**x**\n*****";
const FLAT: &str = "*****\n*****\n*xxx*\n*****\n*****";

fn chosen(path: &str) -> OpenView {
    let mut view = OpenView::default();
    view.choose_file(PathBuf::from(path));
    view
}

/// A click on the button that plays, with `read` as what reading the file gives.
fn click_play(view: &mut OpenView, read: Result<&str, TextLoadError>) -> Option<CurrentView> {
    if let Some(to_load) = view.begin_load() {
        view.finish_load(to_load, read.map(|text| text.to_string()));
    }
    view.try_to_play_game()
}

fn state_name(state: &DataFileState) -> &'static str {
    match state {
        DataFileState::NotChoosen => "not choosen",
        DataFileState::Choosen { .. } => "choosen",
        DataFileState::Invalid { .. } => "invalid",
        DataFileState::Loaded { .. } => "loaded",
    }
}

#[test]
fn a_time_unit_is_a_span() {
    assert_eq!(Span::from(TimeUnit::Seconds(3)), Span::from_secs(3));
    assert_eq!(Span::from(TimeUnit::MsSeconds(3)), Span::from_millis(3));
    assert_eq!(Span::from(TimeUnit::Seconds(u32::MAX)).as_nanos(), 4_294_967_295_000_000_000);
    assert_eq!(Span::from(TimeUnit::MsSeconds(0)).as_nanos(), 0);
    let span: Span = TimeUnit::Seconds(1).into();
    assert_eq!(span.as_millis(), 1000);
}

#[test]
fn a_time_unit_is_written_as_its_number() {
    assert_eq!(TimeUnit::Seconds(12).to_string(), "12");
    assert_eq!(TimeUnit::MsSeconds(250).to_string(), "250");
    assert_eq!(TimeUnit::Seconds(0).to_string(), "0");
}

#[test]
fn the_selected_unit_has_a_name() {
    assert_eq!(SelectedTime::Seconds.to_string(), "Seconds");
    assert_eq!(SelectedTime::MsSeconds.to_string(), "Mili seconds");
    assert_eq!(SelectedTime::default(), SelectedTime::Seconds);
}

#[test]
fn the_selection_gives_the_unit() {
    assert_eq!(time_unit_from_selection(SelectedTime::Seconds, 5), TimeUnit::Seconds(5));
    assert_eq!(time_unit_from_selection(SelectedTime::MsSeconds, 5), TimeUnit::MsSeconds(5));
}

#[test]
fn errors_are_wrapped_by_what_they_come_from() {
    assert!(matches!(
        ValidationError::from(InvalidCharCell::TooLongForAlive),
        ValidationError::InvalidChars(InvalidCharCell::TooLongForAlive)
    ));
    assert!(matches!(
        ValidationError::from(TextLoadError::UnEqualWidth(4)),
        ValidationError::FailureInLoad(TextLoadError::UnEqualWidth(4))
    ));
    let state = DataFileState::from((PathBuf::from("a.txt"), ValidationError::NotNumberForTime));
    match state {
        DataFileState::Invalid { path, error } => {
            assert_eq!(path, PathBuf::from("a.txt"));
            assert!(matches!(error, ValidationError::NotNumberForTime));
        }
        other => panic!("{}", state_name(&other)),
    }
    assert!(matches!(DataFileState::default(), DataFileState::NotChoosen));
}

#[test]
fn a_new_view_has_no_file_and_the_defaults_entered() {
    let view = OpenView::default();
    assert_eq!((DEAD_CHAR, ALIVE_CHAR, TICK_DURATION_SECS), ('*', 'x', 1));
    assert_eq!(view.dead_char_code, '*');
    assert_eq!(view.alive_char_code, 'x');
    assert_eq!(view.dead_char_input, "*");
    assert_eq!(view.alive_char_input, "x");
    assert_eq!(view.time_interval, "1");
    assert_eq!(view.selected_time, SelectedTime::Seconds);
    assert!(matches!(view.game_file_state, DataFileState::NotChoosen));
    assert!(!view.can_play());
}

#[test]
fn other_defaults_can_be_given() {
    let view = OpenView::with_defaults('0', '1', 30);
    assert_eq!((view.dead_char_code, view.alive_char_code), ('0', '1'));
    assert_eq!(view.dead_char_input, "0");
    assert_eq!(view.alive_char_input, "1");
    assert_eq!(view.time_interval, "30");
    assert!(matches!(view.game_file_state, DataFileState::NotChoosen));
}

#[test]
fn without_a_file_play_does_nothing() {
    let mut view = OpenView::default();
    assert!(view.begin_load().is_none());
    assert!(view.try_to_play_game().is_none());
    assert!(matches!(view.game_file_state, DataFileState::NotChoosen));
    assert!(view.try_query_loaded_file().is_none());
}

#[test]
fn choosing_a_file_makes_the_view_playable() {
    let view = chosen("glider.txt");
    assert!(view.can_play());
    match &view.game_file_state {
        DataFileState::Choosen { path } => assert_eq!(path, &PathBuf::from("glider.txt")),
        other => panic!("{}", state_name(other)),
    }
}

#[test]
fn a_chosen_file_with_valid_inputs_is_to_be_read() {
    let mut view = chosen("glider.txt");
    view.dead_char_input = " o ".to_string();
    view.alive_char_input = "#".to_string();
    let to_load = view.begin_load().unwrap();
    assert_eq!(to_load.path, PathBuf::from("glider.txt"));
    assert_eq!((to_load.dead_alive_chars.dead(), to_load.dead_alive_chars.alive()), ('o', '#'));
    assert!(matches!(view.game_file_state, DataFileState::NotChoosen));
    assert_eq!(view.dead_char_input, " o ");
    assert_eq!(view.alive_char_input, "#");
}

#[test]
fn a_text_that_is_a_grid_is_loaded() {
    let mut view = chosen("two.txt");
    let to_load = view.begin_load().unwrap();
    view.finish_load(to_load, Ok("*x\nx*".to_string()));
    match &view.game_file_state {
        DataFileState::Loaded { path, game } => {
            assert_eq!(path, &PathBuf::from("two.txt"));
            assert_eq!((game.height(), game.width()), (2, 2));
            assert_eq!(game.passed_tick(), 0);
            assert_eq!(game.to_text('*', 'x'), "*x\nx*");
        }
        other => panic!("{}", state_name(other)),
    }
    assert!(view.can_play());
    assert!(view.begin_load().is_none());
    assert_eq!(state_name(&view.game_file_state), "loaded");
}

#[test]
fn a_row_that_is_too_short_leaves_the_view_invalid() {
    let mut view = chosen("short.txt");
    assert!(click_play(&mut view, Ok("*x\nx")).is_none());
    match &view.game_file_state {
        DataFileState::Invalid { path, error } => {
            assert_eq!(path, &PathBuf::from("short.txt"));
            assert!(matches!(
                error,
                ValidationError::FailureInLoad(TextLoadError::UnEqualWidth(2))
            ));
        }
        other => panic!("{}", state_name(other)),
    }
    assert!(view.can_play());
    assert_eq!(view.time_interval, "1");
}

#[test]
fn a_foreign_character_leaves_the_view_invalid() {
    let mut view = chosen("odd.txt");
    assert!(click_play(&mut view, Ok("*x\nx?")).is_none());
    assert!(matches!(
        view.game_file_state,
        DataFileState::Invalid {
            error: ValidationError::FailureInLoad(TextLoadError::NotValidCellChar('?')),
            ..
        }
    ));
}

#[test]
fn a_file_that_is_not_there_leaves_the_view_invalid() {
    let mut view = chosen("nowhere.txt");
    let missing = TextLoadError::NoFileFound(PathBuf::from("nowhere.txt"));
    assert!(click_play(&mut view, Err(missing)).is_none());
    match &view.game_file_state {
        DataFileState::Invalid {
            path,
            error: ValidationError::FailureInLoad(TextLoadError::NoFileFound(missing)),
        } => {
            assert_eq!(path, &PathBuf::from("nowhere.txt"));
            assert_eq!(missing, &PathBuf::from("nowhere.txt"));
        }
        other => panic!("{}", state_name(other)),
    }
}

#[test]
fn a_file_that_cannot_be_read_leaves_the_view_invalid() {
    let mut view = chosen("locked.txt");
    let denied = std::io::Error::new(std::io::ErrorKind::PermissionDenied, "denied");
    assert!(click_play(&mut view, Err(TextLoadError::IoError(denied))).is_none());
    match &view.game_file_state {
        DataFileState::Invalid {
            error: ValidationError::FailureInLoad(TextLoadError::IoError(error)),
            ..
        } => assert_eq!(error.kind(), std::io::ErrorKind::PermissionDenied),
        other => panic!("{}", state_name(other)),
    }
}

#[test]
fn a_time_that_is_no_positive_number_is_refused_before_anything_is_read() {
    for time in ["", "0", "00", "-1", "1.5", "one", " 1", "4294967296"] {
        let mut view = chosen("a.txt");
        view.time_interval = time.to_string();
        view.dead_char_input = "too long".to_string();
        assert!(view.begin_load().is_none(), "{:?}", time);
        match &view.game_file_state {
            DataFileState::Invalid { path, error } => {
                assert_eq!(path, &PathBuf::from("a.txt"));
                assert!(matches!(error, ValidationError::NotNumberForTime), "{:?}", time);
            }
            other => panic!("{}", state_name(other)),
        }
        assert_eq!(view.time_interval, time);
        assert!(matches!(view.try_parse_interval_time(), Err(ValidationError::NotNumberForTime)));
    }
}

#[test]
fn a_time_that_is_a_positive_number_is_accepted() {
    let mut view = OpenView::default();
    for (time, number) in [("1", 1), ("+2", 2), ("0010", 10), ("4294967295", u32::MAX)] {
        view.time_interval = time.to_string();
        assert!(matches!(view.try_parse_interval_time(), Ok(n) if n == number), "{:?}", time);
    }
}

#[test]
fn characters_that_are_too_long_are_refused_before_anything_is_read() {
    let mut view = chosen("a.txt");
    view.dead_char_input = "ab".to_string();
    view.alive_char_input = "".to_string();
    assert!(view.begin_load().is_none());
    assert!(matches!(
        view.game_file_state,
        DataFileState::Invalid {
            error: ValidationError::InvalidChars(InvalidCharCell::TooLongForDead),
            ..
        }
    ));
    view.dead_char_input = "a".to_string();
    assert!(view.begin_load().is_none());
    assert!(matches!(
        view.game_file_state,
        DataFileState::Invalid {
            error: ValidationError::InvalidChars(InvalidCharCell::TooLongForAlive),
            ..
        }
    ));
    assert!(matches!(
        view.validate_given_chars_for_game(),
        Err(ValidationError::InvalidChars(InvalidCharCell::TooLongForAlive))
    ));
}

#[test]
fn an_invalid_view_can_be_tried_again() {
    let mut view = chosen("a.txt");
    view.time_interval = "soon".to_string();
    assert!(click_play(&mut view, Ok("*x\nx*")).is_none());
    assert_eq!(state_name(&view.game_file_state), "invalid");
    view.time_interval = "2".to_string();
    assert!(click_play(&mut view, Ok("*x\nx")).is_none());
    assert!(matches!(
        view.game_file_state,
        DataFileState::Invalid {
            error: ValidationError::FailureInLoad(TextLoadError::UnEqualWidth(2)),
            ..
        }
    ));
    let played = click_play(&mut view, Ok("*x\nx*"));
    match played {
        Some(CurrentView::Game(game)) => {
            assert_eq!(game.tick_interval_ms(), 2000);
            assert_eq!(game.previous_view().path, PathBuf::from("a.txt"));
        }
        _ => panic!("{}", state_name(&view.game_file_state)),
    }
}

#[test]
fn a_loaded_grid_is_played_with_a_running_timer() {
    let mut view = chosen("blinker.txt");
    view.time_interval = "250".to_string();
    view.selected_time = SelectedTime::MsSeconds;
    let played = click_play(&mut view, Ok(UPRIGHT));
    let game = match played {
        Some(CurrentView::Game(game)) => game,
        _ => panic!("{}", state_name(&view.game_file_state)),
    };
    assert!(!game.is_paused());
    assert_eq!(game.passed_tick_count(), 0);
    assert_eq!(game.tick_interval_ms(), 250);
    assert_eq!(game.grid().to_text('*', 'x'), UPRIGHT);
    let from = game.previous_view();
    assert_eq!(from.path, PathBuf::from("blinker.txt"));
    assert_eq!((from.dead_char_code, from.alive_char_code), ('*', 'x'));
    assert_eq!(from.selected_time, SelectedTime::MsSeconds);
    assert_eq!(from.time_interval(), TimeUnit::MsSeconds(250));
    assert_eq!(from.game.to_text('*', 'x'), UPRIGHT);
    assert!(matches!(view.game_file_state, DataFileState::NotChoosen));
}

#[test]
fn a_loaded_view_with_a_bad_time_turns_invalid_on_play() {
    let mut view = OpenView::new(blinker());
    view.time_interval = "0".to_string();
    assert!(view.try_to_play_game().is_none());
    match &view.game_file_state {
        DataFileState::Invalid { path, error } => {
            assert_eq!(path, &PathBuf::from("blinker.txt"));
            assert!(matches!(error, ValidationError::NotNumberForTime));
        }
        other => panic!("{}", state_name(other)),
    }
}

#[test]
fn file_content_is_validated_into_text_data_or_an_error() {
    let chars = DeadAliveCharCell::new("*", "x").unwrap();
    let data = validate_file_content("*x\nx*", chars).ok().unwrap();
    assert_eq!(data.cell_at_y_x(0, 1), LifeCell::Alive);
    let chars = DeadAliveCharCell::new("*", "x").unwrap();
    assert!(matches!(
        validate_file_content("*x\nx", chars),
        Err(ValidationError::FailureInLoad(TextLoadError::UnEqualWidth(2)))
    ));
}

#[test]
fn the_view_that_a_game_goes_back_to_shows_what_it_was_made_from() {
    let view = OpenView::new(blinker());
    assert_eq!((view.dead_char_code, view.alive_char_code), ('*', 'x'));
    assert_eq!(view.dead_char_input, "*");
    assert_eq!(view.alive_char_input, "x");
    assert_eq!(view.time_interval, "1000");
    assert_eq!(view.selected_time, SelectedTime::MsSeconds);
    match &view.game_file_state {
        DataFileState::Loaded { path, game } => {
            assert_eq!(path, &PathBuf::from("blinker.txt"));
            assert_eq!(game.to_text('*', 'x'), UPRIGHT);
        }
        other => panic!("{}", state_name(other)),
    }
}

#[test]
fn gathered_data_is_cloned_with_its_grid() {
    let gathered = blinker();
    let copy = gathered.clone();
    let mut game = gathered.clone_game();
    game.tick();
    assert_eq!(copy.game.to_text('*', 'x'), UPRIGHT);
    assert_eq!(gathered.game.to_text('*', 'x'), UPRIGHT);
    assert_eq!(game.to_text('*', 'x'), FLAT);
    assert_eq!(copy.path, gathered.path);
    assert_eq!(copy.time_interval(), TimeUnit::MsSeconds(1000));
    assert_eq!((copy.dead_char_code, copy.alive_char_code), ('*', 'x'));
    assert_eq!(copy.selected_time, SelectedTime::MsSeconds);
}

#[test]
fn a_new_game_runs_and_has_passed_no_generation() {
    let mut gathered = blinker();
    gathered.game.tick();
    let game = GameView::new(gathered);
    assert!(!game.is_paused());
    assert_eq!(game.passed_tick_count(), 0);
    assert_eq!(game.tick_interval_ms(), 1000);
    assert_eq!(game.grid().to_text('*', 'x'), FLAT);
}

#[test]
fn a_frame_moves_the_grid_on_once_the_interval_has_passed() {
    let mut game = GameView::new(blinker());
    game.reset_at(0);
    game.resume_at(0);
    game.tick_if_up_at(999 * MS);
    assert_eq!(game.passed_tick_count(), 0);
    assert_eq!(game.grid().to_text('*', 'x'), UPRIGHT);
    game.tick_if_up_at(1000 * MS);
    assert_eq!(game.passed_tick_count(), 1);
    assert_eq!(game.grid().to_text('*', 'x'), FLAT);
    game.tick_if_up_at(1500 * MS);
    assert_eq!(game.passed_tick_count(), 1);
    game.tick_if_up_at(2000 * MS);
    assert_eq!(game.passed_tick_count(), 2);
    assert_eq!(game.grid().to_text('*', 'x'), UPRIGHT);
}

#[test]
fn a_frame_never_catches_up_on_missed_intervals() {
    let mut game = GameView::new(blinker());
    game.reset_at(0);
    game.resume_at(0);
    game.tick_if_up_at(10_000 * MS);
    assert_eq!(game.passed_tick_count(), 1);
    game.tick_if_up_at(10_000 * MS);
    assert_eq!(game.passed_tick_count(), 1);
    game.tick_if_up_at(10_999 * MS);
    assert_eq!(game.passed_tick_count(), 1);
    game.tick_if_up_at(11_000 * MS);
    assert_eq!(game.passed_tick_count(), 2);
}

#[test]
fn a_paused_game_stands_still() {
    let mut game = GameView::new(blinker());
    game.reset_at(0);
    assert!(game.is_paused());
    for now in [0, 1000 * MS, 1_000_000 * MS, u128::MAX] {
        game.tick_if_up_at(now);
        assert_eq!(game.passed_tick_count(), 0);
    }
    game.tick_if_up();
    assert_eq!(game.passed_tick_count(), 0);
    assert_eq!(game.grid().to_text('*', 'x'), UPRIGHT);
}

#[test]
fn a_game_keeps_its_progress_over_a_pause() {
    let mut game = GameView::new(blinker());
    game.reset_at(0);
    game.resume_at(0);
    game.pause_at(600 * MS);
    game.tick_if_up_at(1200 * MS);
    assert_eq!(game.passed_tick_count(), 0);
    game.resume_at(1200 * MS);
    game.tick_if_up_at(1599 * MS);
    assert_eq!(game.passed_tick_count(), 0);
    game.tick_if_up_at(1600 * MS);
    assert_eq!(game.passed_tick_count(), 1);
    game.tick_if_up_at(2599 * MS);
    assert_eq!(game.passed_tick_count(), 1);
    game.tick_if_up_at(2600 * MS);
    assert_eq!(game.passed_tick_count(), 2);
}

#[test]
fn toggling_pauses_a_running_game_and_resumes_a_paused_one() {
    let mut game = GameView::new(blinker());
    assert!(!game.is_paused());
    game.toogle_pause_resume();
    assert!(game.is_paused());
    game.toogle_pause_resume();
    assert!(!game.is_paused());
    game.toogle_pause_resume_at(5);
    assert!(game.is_paused());
    game.toogle_pause_resume_at(6);
    assert!(!game.is_paused());
    game.pause();
    assert!(game.is_paused());
    game.pause();
    assert!(game.is_paused());
    game.resume();
    assert!(!game.is_paused());
}

#[test]
fn a_step_moves_the_grid_on_and_leaves_the_timer_alone() {
    let mut game = GameView::new(blinker());
    game.reset_at(0);
    game.step_once();
    assert!(game.is_paused());
    assert_eq!(game.passed_tick_count(), 1);
    assert_eq!(game.grid().to_text('*', 'x'), FLAT);
    game.resume_at(0);
    game.step_once();
    assert!(!game.is_paused());
    assert_eq!(game.passed_tick_count(), 2);
    game.tick_if_up_at(999 * MS);
    assert_eq!(game.passed_tick_count(), 2);
    game.tick_if_up_at(1000 * MS);
    assert_eq!(game.passed_tick_count(), 3);
}

#[test]
fn reset_goes_back_to_the_start_and_pauses() {
    let mut game = GameView::new(blinker());
    game.reset_at(0);
    game.resume_at(0);
    game.tick_if_up_at(1000 * MS);
    game.tick_if_up_at(2000 * MS);
    game.tick_if_up_at(3000 * MS);
    assert_eq!(game.passed_tick_count(), 3);
    assert_eq!(game.grid().to_text('*', 'x'), FLAT);
    game.tick_if_up_at(3900 * MS);
    game.reset_at(3950 * MS);
    assert!(game.is_paused());
    assert_eq!(game.passed_tick_count(), 0);
    assert_eq!(game.grid().to_text('*', 'x'), UPRIGHT);
    game.resume_at(4000 * MS);
    game.tick_if_up_at(4999 * MS);
    assert_eq!(game.passed_tick_count(), 0);
    game.tick_if_up_at(5000 * MS);
    assert_eq!(game.passed_tick_count(), 1);
    game.reset();
    assert!(game.is_paused());
    assert_eq!(game.passed_tick_count(), 0);
}

#[test]
fn going_back_pauses_the_game_and_shows_what_it_was_started_from() {
    let mut game = GameView::new(blinker());
    game.step_once();
    let view = game.exit_to_configuration();
    assert!(game.is_paused());
    assert_eq!(game.passed_tick_count(), 1);
    assert_eq!(view.time_interval, "1000");
    assert_eq!(view.selected_time, SelectedTime::MsSeconds);
    assert_eq!(view.dead_char_input, "*");
    assert_eq!(view.alive_char_input, "x");
    match &view.game_file_state {
        DataFileState::Loaded { path, game } => {
            assert_eq!(path, &PathBuf::from("blinker.txt"));
            assert_eq!(game.to_text('*', 'x'), UPRIGHT);
            assert_eq!(game.passed_tick(), 0);
        }
        other => panic!("{}", state_name(other)),
    }
}

#[test]
fn a_game_can_be_played_again_from_the_view_it_went_back_to() {
    let mut game = GameView::new(blinker());
    game.step_once();
    let mut view = game.exit_to_configuration();
    view.time_interval = "3".to_string();
    view.selected_time = SelectedTime::Seconds;
    match click_play(&mut view, Err(TextLoadError::UnEqualWidth(0))) {
        Some(CurrentView::Game(again)) => {
            assert_eq!(again.tick_interval_ms(), 3000);
            assert_eq!(again.passed_tick_count(), 0);
            assert_eq!(again.grid().to_text('*', 'x'), UPRIGHT);
            assert!(!again.is_paused());
        }
        _ => panic!("{}", state_name(&view.game_file_state)),
    }
}

#[test]
fn choosing_another_file_lets_the_loaded_grid_go() {
    let mut view = OpenView::new(blinker());
    view.choose_file(PathBuf::from("other.txt"));
    match click_play(&mut view, Ok("xx\nxx")) {
        Some(CurrentView::Game(game)) => {
            assert_eq!(game.grid().to_text('*', 'x'), "xx\nxx");
            assert_eq!(game.previous_view().path, PathBuf::from("other.txt"));
            assert_eq!(game.tick_interval_ms(), 1000);
        }
        _ => panic!("{}", state_name(&view.game_file_state)),
    }
}
