//! A timer that can be paused: it says when an interval of running time has passed,
//! and time spent paused does not count.
//!
//! The timer reads a clock of its own, which starts at zero when the timer is made and
//! counts nanoseconds. Every operation exists twice: once taking the reading of the
//! clock as an argument, and once reading the clock itself.

use std::time::Instant;
use vstd::prelude::*;

verus! {

/// `std::time::Instant`. Nothing here looks inside: an instant is kept to read the time
/// that has passed since.
#[verifier::external_type_specification]
#[verifier::external_body]
pub struct ExInstant(Instant);

/// `Instant::now`: a point in time. Nothing is claimed of it.
#[verifier::external_body]
fn clock_start() -> Instant {
    Instant::now()
}

/// `Instant::elapsed`: the whole nanoseconds that lie between `origin` and the moment
/// of the call. The result is a reading of the machine's clock, so nothing is claimed
/// of it.
#[verifier::external_body]
fn clock_reading(origin: &Instant) -> u128 {
    origin.elapsed().as_nanos()
}

pub const NANOS_PER_SEC: u128 = 1_000_000_000;

pub const NANOS_PER_MILLI: u128 = 1_000_000;

/// A length of time in whole nanoseconds.
#[derive(Clone, Copy, Debug, PartialEq, Eq, Structural)]
pub struct Span {
    pub nanos: u128,
}

impl Span {
    pub fn from_nanos(nanos: u128) -> (span: Self)
        ensures
            span.nanos == nanos,
    {
        Self { nanos }
    }

    pub fn from_millis(millis: u64) -> (span: Self)
        ensures
            span.nanos == millis * NANOS_PER_MILLI,
    {
        Self { nanos: millis as u128 * NANOS_PER_MILLI }
    }

    pub fn from_secs(secs: u64) -> (span: Self)
        ensures
            span.nanos == secs * NANOS_PER_SEC,
    {
        Self { nanos: secs as u128 * NANOS_PER_SEC }
    }

    pub fn as_nanos(self) -> (nanos: u128)
        ensures
            nanos == self.nanos,
    {
        self.nanos
    }

    /// The whole milliseconds of the span.
    pub fn as_millis(self) -> (millis: u128)
        ensures
            millis == self.nanos / NANOS_PER_MILLI,
    {
        self.nanos / NANOS_PER_MILLI
    }
}

/// The largest running time that a timer carries over a pause.
pub open spec fn capped(nanos: nat) -> nat {
    if nanos > u128::MAX {
        u128::MAX as nat
    } else {
        nanos
    }
}

/// What a timer is. Times are readings of the timer's clock, in nanoseconds.
pub struct TimerState {
    /// The reading from which running time is counted.
    pub last: nat,
    /// The running time that was gathered before `last` and is not used up yet.
    pub carried: nat,
    pub paused: bool,
    pub interval: nat,
}

impl TimerState {
    /// A new timer is paused and has gathered nothing.
    pub open spec fn fresh(interval: nat) -> TimerState {
        TimerState { last: 0, carried: 0, paused: true, interval }
    }

    /// The time from `last` to `now`; none where the clock has gone back.
    pub open spec fn elapsed(self, now: nat) -> nat {
        if now >= self.last {
            (now - self.last) as nat
        } else {
            0
        }
    }

    /// The running time gathered at `now` by a timer that is running.
    pub open spec fn passed(self, now: nat) -> nat {
        self.elapsed(now) + self.carried
    }

    /// A paused timer is never due. A running one is due once the running time has
    /// reached the interval.
    pub open spec fn is_due(self, now: nat) -> bool {
        !self.paused && self.passed(now) >= self.interval
    }

    /// A paused timer runs on from `now`, with what it carries; on a running one
    /// nothing changes.
    pub open spec fn resumed(self, now: nat) -> TimerState {
        if self.paused {
            TimerState { last: now, paused: false, ..self }
        } else {
            self
        }
    }

    /// A running timer stops and carries the running time it has gathered; on a paused
    /// one nothing changes.
    pub open spec fn paused_at(self, now: nat) -> TimerState {
        if self.paused {
            self
        } else {
            TimerState { carried: capped(self.passed(now)), paused: true, ..self }
        }
    }

    /// Paused, with nothing gathered.
    pub open spec fn reset(self, now: nat) -> TimerState {
        TimerState { last: now, carried: 0, paused: true, ..self }
    }

    /// Running time is counted from `now`; what is carried stays.
    pub open spec fn reset_time(self, now: nat) -> TimerState {
        TimerState { last: now, ..self }
    }

    /// The timer after it was asked at `now` whether it is due: being due uses up what
    /// was carried.
    pub open spec fn asked(self, now: nat) -> TimerState {
        if self.is_due(now) {
            TimerState { carried: 0, ..self }
        } else {
            self
        }
    }
}

pub struct Timer {
    origin: Instant,
    last: u128,
    paused_elapsed: Option<u128>,
    paused: bool,
    interval: Span,
}

impl View for Timer {
    type V = TimerState;

    closed spec fn view(&self) -> TimerState {
        TimerState {
            last: self.last as nat,
            carried: match self.paused_elapsed {
                Some(carried) => carried as nat,
                None => 0,
            },
            paused: self.paused,
            interval: self.interval.nanos as nat,
        }
    }
}

impl Timer {
    /// A paused timer whose clock starts now.
    pub fn new(interval: Span) -> (timer: Self)
        ensures
            timer@ == TimerState::fresh(interval.nanos as nat),
    {
        Self { origin: clock_start(), last: 0, paused_elapsed: None, paused: true, interval }
    }

    pub fn interval_as_ms(&self) -> (millis: u128)
        ensures
            millis == self@.interval / NANOS_PER_MILLI as nat,
    {
        self.interval.as_millis()
    }

    pub fn is_paused(&self) -> (paused: bool)
        ensures
            paused == self@.paused,
    {
        self.paused
    }

    /// What the timer's clock shows now.
    pub fn now(&self) -> u128 {
        clock_reading(&self.origin)
    }

    /// The running time since `last`, as `TimerState::elapsed` says.
    fn elapsed_at(&self, now: u128) -> (elapsed: u128)
        ensures
            elapsed == self@.elapsed(now as nat),
    {
        if now >= self.last {
            now - self.last
        } else {
            0
        }
    }

    fn carried(&self) -> (carried: u128)
        ensures
            carried == self@.carried,
    {
        match self.paused_elapsed {
            Some(carried) => carried,
            None => 0,
        }
    }

    pub fn resume_at(&mut self, now: u128)
        ensures
            final(self)@ == old(self)@.resumed(now as nat),
    {
        if !self.paused {
            return ;
        }
        self.last = now;
        self.paused = false;
    }

    pub fn pause_at(&mut self, now: u128)
        ensures
            final(self)@ == old(self)@.paused_at(now as nat),
    {
        if self.paused {
            return ;
        }
        let passed = self.elapsed_at(now).saturating_add(self.carried());
        self.paused = true;
        self.paused_elapsed = Some(passed);
    }

    pub fn reset_at(&mut self, now: u128)
        ensures
            final(self)@ == old(self)@.reset(now as nat),
    {
        self.last = now;
        self.paused_elapsed = None;
        self.paused = true;
    }

    pub fn reset_time_at(&mut self, now: u128)
        ensures
            final(self)@ == old(self)@.reset_time(now as nat),
    {
        self.last = now;
    }

    pub fn is_up_at(&mut self, now: u128) -> (is_up: bool)
        ensures
            is_up == old(self)@.is_due(now as nat),
            final(self)@ == old(self)@.asked(now as nat),
    {
        if self.paused {
            return false;
        }
        let is_up = match self.elapsed_at(now).checked_add(self.carried()) {
            Some(passed) => passed >= self.interval.as_nanos(),
            None => true,
        };
        if is_up {
            self.paused_elapsed = None;
            true
        } else {
            false
        }
    }

    /// `resume_at` with the reading of the clock.
    pub fn resume(&mut self)
        ensures
            exists|now: nat| final(self)@ == #[trigger] old(self)@.resumed(now),
            !final(self)@.paused,
    {
        let now = self.now();
        self.resume_at(now);
    }

    /// `pause_at` with the reading of the clock.
    pub fn pause(&mut self)
        ensures
            exists|now: nat| final(self)@ == #[trigger] old(self)@.paused_at(now),
            final(self)@.paused,
    {
        let now = self.now();
        self.pause_at(now);
    }

    /// `reset_at` with the reading of the clock.
    pub fn reset(&mut self)
        ensures
            exists|now: nat| final(self)@ == #[trigger] old(self)@.reset(now),
    {
        let now = self.now();
        self.reset_at(now);
    }

    /// `reset_time_at` with the reading of the clock.
    pub fn reset_time(&mut self)
        ensures
            exists|now: nat| final(self)@ == #[trigger] old(self)@.reset_time(now),
    {
        let now = self.now();
        self.reset_time_at(now);
    }

    /// `is_up_at` with the reading of the clock.
    pub fn is_up(&mut self) -> (is_up: bool)
        ensures
            exists|now: nat|
                is_up == #[trigger] old(self)@.is_due(now) && final(self)@ == old(self)@.asked(
                    now,
                ),
            old(self)@.paused ==> !is_up && final(self)@ == old(self)@,
    {
        let now = self.now();
        self.is_up_at(now)
    }
}

/// A paused timer is not due, whatever the clock shows, and asking it changes nothing.
pub proof fn lemma_paused_is_never_due(timer: TimerState, now: nat)
    requires
        timer.paused,
    ensures
        !timer.is_due(now),
        timer.asked(now) == timer,
{
}

/// Time spent paused does not count, and time that ran before the pause is not lost: a
/// fresh timer that ran from `started` to `paused` and runs again from `resumed` is due
/// at `now` exactly when the two stretches of running time together have reached the
/// interval. `paused` is a reading of the clock, so it fits the clock.
pub proof fn lemma_pause_keeps_progress(
    interval: nat,
    started: nat,
    paused: nat,
    resumed: nat,
    now: nat,
)
    requires
        started <= paused <= u128::MAX,
        resumed <= now,
    ensures
        TimerState::fresh(interval).resumed(started).paused_at(paused).resumed(resumed).is_due(
            now,
        ) <==> (paused - started) + (now - resumed) >= interval,
{
}

} // verus!
