//! A game that is being played: a grid, the timer that paces it, and what it was
//! started from.
//!
//! Every operation that looks at the clock exists twice: once taking the reading of
//! the timer's clock as an argument, and once reading the clock itself.

use crate::grid::{Grid, GridState};
use crate::open_view::{GatheredOpenViewData, OpenView};
use crate::timer::{Span, Timer, TimerState, NANOS_PER_MILLI};
use vstd::prelude::*;

verus! {

/// What a game is: the grid as it is now, the timer, and the grid it goes back to when
/// it is reset.
pub struct GameState {
    pub grid: GridState,
    pub timer: TimerState,
    pub baseline: GridState,
}

impl GameState {
    /// The grid and the one it goes back to are grids of one size.
    pub open spec fn wf(self) -> bool {
        &&& self.grid.wf()
        &&& self.baseline.wf()
        &&& self.grid.height == self.baseline.height
        &&& self.grid.width == self.baseline.width
    }

    /// A game that was started at `now`: no generation has passed and the timer runs.
    pub open spec fn started(baseline: GridState, interval: nat, now: nat) -> GameState {
        GameState {
            grid: baseline.reset_to(baseline),
            timer: TimerState::fresh(interval).resumed(now),
            baseline,
        }
    }

    /// Back at the start, and paused.
    pub open spec fn reset(self, now: nat) -> GameState {
        GameState { grid: self.grid.reset_to(self.baseline), timer: self.timer.reset(now), ..self }
    }

    pub open spec fn paused_at(self, now: nat) -> GameState {
        GameState { timer: self.timer.paused_at(now), ..self }
    }

    pub open spec fn resumed(self, now: nat) -> GameState {
        GameState { timer: self.timer.resumed(now), ..self }
    }

    /// A paused game runs on, a running one pauses.
    pub open spec fn toggled(self, now: nat) -> GameState {
        if self.timer.paused {
            self.resumed(now)
        } else {
            self.paused_at(now)
        }
    }

    /// One generation on, whatever the timer says; the timer is left alone.
    pub open spec fn stepped(self) -> GameState {
        GameState { grid: self.grid.ticked(), ..self }
    }

    /// The game after a frame at `now`: where the timer is due, one generation has
    /// passed, never more, and the timer counts the next interval from `now`; where it
    /// is not, nothing has changed.
    pub open spec fn after_frame(self, now: nat) -> GameState {
        if self.timer.is_due(now) {
            GameState {
                grid: self.grid.ticked(),
                timer: self.timer.asked(now).reset_time(now),
                ..self
            }
        } else {
            self
        }
    }
}

pub struct GameView {
    grid: Grid,
    tick_timer: Timer,
    previous_view: GatheredOpenViewData,
}

impl View for GameView {
    type V = GameState;

    closed spec fn view(&self) -> GameState {
        GameState {
            grid: self.grid@,
            timer: self.tick_timer@,
            baseline: self.previous_view.game@,
        }
    }
}

impl GameView {
    /// What the game was started from.
    pub closed spec fn spec_previous_view(&self) -> GatheredOpenViewData {
        self.previous_view
    }

    /// Starts a game on a copy of the grid of `previous_view`, with a timer that runs
    /// from now on.
    pub fn new(previous_view: GatheredOpenViewData) -> (view: Self)
        ensures
            exists|now: nat|
                view@ == #[trigger] GameState::started(
                    previous_view.game@,
                    previous_view.time_interval.nanos(),
                    now,
                ),
            view@.wf(),
            view.spec_previous_view() == previous_view,
    {
        let grid = previous_view.clone_game();
        let tick_timer = Timer::new(Span::from(previous_view.time_interval()));
        let mut slf = Self { grid, tick_timer, previous_view };
        slf.grid.reset_to(&slf.previous_view.game);
        let now = slf.tick_timer.now();
        slf.tick_timer.resume_at(now);
        proof {
            assert(slf@ == GameState::started(
                previous_view.game@,
                previous_view.time_interval.nanos(),
                now as nat,
            ));
        }
        slf
    }

    /// Whether the game is well formed, as every game is that `new` has made.
    pub fn is_well_formed(&self) -> (ok: bool)
        ensures
            ok == self@.wf(),
    {
        self.grid.height() == self.previous_view.game.height() && self.grid.width()
            == self.previous_view.game.width()
    }

    pub fn reset_at(&mut self, now: u128)
        requires
            old(self)@.wf(),
        ensures
            final(self)@.wf(),
            final(self)@ == old(self)@.reset(now as nat),
            final(self).spec_previous_view() == old(self).spec_previous_view(),
    {
        self.pause_at(now);
        self.tick_timer.reset_at(now);
        self.grid.reset_to(&self.previous_view.game);
    }

    pub fn pause_at(&mut self, now: u128)
        ensures
            old(self)@.wf() ==> final(self)@.wf(),
            final(self)@ == old(self)@.paused_at(now as nat),
            final(self).spec_previous_view() == old(self).spec_previous_view(),
    {
        self.tick_timer.pause_at(now);
    }

    pub fn resume_at(&mut self, now: u128)
        ensures
            old(self)@.wf() ==> final(self)@.wf(),
            final(self)@ == old(self)@.resumed(now as nat),
            final(self).spec_previous_view() == old(self).spec_previous_view(),
    {
        self.tick_timer.resume_at(now);
    }

    pub fn toogle_pause_resume_at(&mut self, now: u128)
        ensures
            old(self)@.wf() ==> final(self)@.wf(),
            final(self)@ == old(self)@.toggled(now as nat),
            final(self).spec_previous_view() == old(self).spec_previous_view(),
    {
        if self.is_paused() {
            self.resume_at(now);
        } else {
            self.pause_at(now);
        }
    }

    /// One frame at `now`: the grid moves on if the timer is due, and then by one
    /// generation.
    pub fn tick_if_up_at(&mut self, now: u128)
        requires
            old(self)@.grid.passed_ticks < usize::MAX,
        ensures
            old(self)@.wf() ==> final(self)@.wf(),
            final(self)@ == old(self)@.after_frame(now as nat),
            final(self).spec_previous_view() == old(self).spec_previous_view(),
    {
        if self.tick_timer.is_up_at(now) {
            self.tick_timer.reset_time_at(now);
            self.grid.tick();
        }
    }

    /// `reset_at` with the reading of the clock.
    pub fn reset(&mut self)
        requires
            old(self)@.wf(),
        ensures
            final(self)@.wf(),
            exists|now: nat| final(self)@ == #[trigger] old(self)@.reset(now),
            final(self).spec_previous_view() == old(self).spec_previous_view(),
    {
        let now = self.tick_timer.now();
        self.reset_at(now);
    }

    /// `pause_at` with the reading of the clock.
    pub fn pause(&mut self)
        ensures
            old(self)@.wf() ==> final(self)@.wf(),
            exists|now: nat| final(self)@ == #[trigger] old(self)@.paused_at(now),
            final(self).spec_previous_view() == old(self).spec_previous_view(),
    {
        let now = self.tick_timer.now();
        self.pause_at(now);
    }

    /// `resume_at` with the reading of the clock.
    pub fn resume(&mut self)
        ensures
            old(self)@.wf() ==> final(self)@.wf(),
            exists|now: nat| final(self)@ == #[trigger] old(self)@.resumed(now),
            final(self).spec_previous_view() == old(self).spec_previous_view(),
    {
        let now = self.tick_timer.now();
        self.resume_at(now);
    }

    pub fn is_paused(&self) -> (paused: bool)
        ensures
            paused == self@.timer.paused,
    {
        self.tick_timer.is_paused()
    }

    /// `toogle_pause_resume_at` with the reading of the clock.
    pub fn toogle_pause_resume(&mut self)
        ensures
            old(self)@.wf() ==> final(self)@.wf(),
            exists|now: nat| final(self)@ == #[trigger] old(self)@.toggled(now),
            final(self).spec_previous_view() == old(self).spec_previous_view(),
    {
        let now = self.tick_timer.now();
        self.toogle_pause_resume_at(now);
    }

    /// `tick_if_up_at` with the reading of the clock. While the game is paused nothing
    /// changes, whatever the clock shows.
    pub fn tick_if_up(&mut self)
        requires
            old(self)@.grid.passed_ticks < usize::MAX,
        ensures
            old(self)@.wf() ==> final(self)@.wf(),
            exists|now: nat| final(self)@ == #[trigger] old(self)@.after_frame(now),
            old(self)@.timer.paused ==> final(self)@ == old(self)@,
            final(self).spec_previous_view() == old(self).spec_previous_view(),
    {
        let now = self.tick_timer.now();
        self.tick_if_up_at(now);
    }

    /// One generation on, whether the timer is due or not.
    pub fn step_once(&mut self)
        requires
            old(self)@.grid.passed_ticks < usize::MAX,
        ensures
            old(self)@.wf() ==> final(self)@.wf(),
            final(self)@ == old(self)@.stepped(),
            final(self).spec_previous_view() == old(self).spec_previous_view(),
    {
        self.grid.tick();
    }

    /// Pauses the game and hands back the view it was started from, filled in as it
    /// was.
    pub fn exit_to_configuration(&mut self) -> (open: OpenView)
        ensures
            old(self)@.wf() ==> final(self)@.wf(),
            exists|now: nat| final(self)@ == #[trigger] old(self)@.paused_at(now),
            final(self).spec_previous_view() == old(self).spec_previous_view(),
            open.shows(old(self).spec_previous_view()),
    {
        self.pause();
        OpenView::new(self.previous_view.clone())
    }

    /// How many generations have passed since the game was started or last reset.
    pub fn passed_tick_count(&self) -> (passed: usize)
        ensures
            passed == self@.grid.passed_ticks,
    {
        self.grid.passed_tick()
    }

    /// The interval between two generations, in whole milliseconds.
    pub fn tick_interval_ms(&self) -> (millis: u128)
        ensures
            millis == self@.timer.interval / NANOS_PER_MILLI as nat,
    {
        self.tick_timer.interval_as_ms()
    }

    /// The grid as it is now, to be drawn.
    pub fn grid(&self) -> (grid: &Grid)
        ensures
            grid@ == self@.grid,
    {
        &self.grid
    }

    pub fn previous_view(&self) -> (previous_view: &GatheredOpenViewData)
        ensures
            *previous_view == self.spec_previous_view(),
    {
        &self.previous_view
    }
}

} // verus!
