//! How the interval between two generations is entered: a number and its unit.

use crate::text::{decimal, decimal_string};
use crate::timer::{Span, NANOS_PER_MILLI, NANOS_PER_SEC};
use vstd::prelude::*;
use vstd::std_specs::convert::FromSpecImpl;

verus! {

/// A number of seconds or of milliseconds.
#[derive(Clone, Copy, Debug, PartialEq, Eq, Structural)]
pub enum TimeUnit {
    Seconds(u32),
    MsSeconds(u32),
}

impl TimeUnit {
    /// The number, whatever its unit.
    pub open spec fn amount(self) -> u32 {
        match self {
            TimeUnit::Seconds(secs) | TimeUnit::MsSeconds(secs) => secs,
        }
    }

    /// The length of time in nanoseconds.
    pub open spec fn nanos(self) -> nat {
        match self {
            TimeUnit::Seconds(secs) => secs as nat * NANOS_PER_SEC as nat,
            TimeUnit::MsSeconds(ms_secs) => ms_secs as nat * NANOS_PER_MILLI as nat,
        }
    }

    /// The number in decimal digits, without its unit.
    pub fn to_string(&self) -> (text: String)
        ensures
            text@ == decimal(self.amount() as nat),
    {
        match self {
            TimeUnit::Seconds(secs) | TimeUnit::MsSeconds(secs) => decimal_string(*secs),
        }
    }
}

impl From<TimeUnit> for Span {
    fn from(value: TimeUnit) -> (span: Span) {
        match value {
            TimeUnit::Seconds(secs) => Span::from_secs(secs as u64),
            TimeUnit::MsSeconds(ms_secs) => Span::from_millis(ms_secs as u64),
        }
    }
}

impl FromSpecImpl<TimeUnit> for Span {
    open spec fn obeys_from_spec() -> bool {
        true
    }

    open spec fn from_spec(value: TimeUnit) -> Span {
        Span { nanos: value.nanos() as u128 }
    }
}

/// The unit that is chosen for the number that is entered.
#[derive(Debug, Clone, Copy, PartialEq, Eq, Structural)]
pub enum SelectedTime {
    Seconds,
    MsSeconds,
}

impl Default for SelectedTime {
    fn default() -> (selected: Self)
        ensures
            selected == SelectedTime::Seconds,
    {
        Self::Seconds
    }
}

impl SelectedTime {
    /// The name of the unit.
    pub fn to_string(&self) -> (text: String)
        ensures
            text@ == (match self {
                SelectedTime::Seconds => "Seconds"@,
                SelectedTime::MsSeconds => "Mili seconds"@,
            }),
    {
        match self {
            Self::Seconds => "Seconds".to_owned(),
            Self::MsSeconds => "Mili seconds".to_owned(),
        }
    }
}

/// `amount` in the unit that was selected.
pub open spec fn time_unit_from_selection_spec(selected_kind: SelectedTime, amount: u32) -> TimeUnit {
    match selected_kind {
        SelectedTime::Seconds => TimeUnit::Seconds(amount),
        SelectedTime::MsSeconds => TimeUnit::MsSeconds(amount),
    }
}

pub fn time_unit_from_selection(selected_kind: SelectedTime, amount: u32) -> (unit: TimeUnit)
    ensures
        unit == time_unit_from_selection_spec(selected_kind, amount),
{
    match selected_kind {
        SelectedTime::Seconds => TimeUnit::Seconds(amount),
        SelectedTime::MsSeconds => TimeUnit::MsSeconds(amount),
    }
}

} // verus!
