//! Events: a timestamp and one of two kinds.
//!
//! Simulated time is counted in whole ticks of a clock that starts at 0. How long a
//! tick lasts is the caller's choice; nothing here depends on it.

use core::cmp::Ordering;
use vstd::prelude::*;
use vstd::std_specs::cmp::{PartialEqSpecImpl, PartialOrdSpecImpl};

verus! {

/// The instant that stands for "never": no event is pending. Every instant is at most this one.
pub const NEVER: u64 = u64::MAX;

/// What an event announces.
#[derive(Debug, Clone, Copy, PartialEq, Eq, Structural)]
pub enum EventType {
    /// A new customer enters the system.
    Arrival,
    /// The customer in service leaves.
    Departure,
}

/// Something that happens at one instant of simulated time.
///
/// In contracts two events are equal when both fields are. The operators `==`, `<`, `<=`, `>`
/// and `>=` of executable code look at the instant alone, so an arrival and a departure of
/// the same instant compare equal there.
#[derive(Debug, Clone, Copy)]
pub struct Event {
    /// The instant, in ticks.
    pub time: u64,
    pub event_type: EventType,
}

impl Event {
    #[inline]
    pub fn new(time: u64, event_type: EventType) -> (event: Self)
        ensures
            event == (Event { time, event_type }),
    {
        Self { time, event_type }
    }
}

impl PartialEq for Event {
    fn eq(&self, other: &Self) -> (same_instant: bool) {
        self.time == other.time
    }
}

impl PartialEqSpecImpl for Event {
    open spec fn obeys_eq_spec() -> bool {
        true
    }

    open spec fn eq_spec(&self, other: &Self) -> bool {
        self.time == other.time
    }
}

impl Eq for Event {

}

impl PartialOrd for Event {
    fn partial_cmp(&self, other: &Self) -> (order: Option<Ordering>) {
        if self.time < other.time {
            Some(Ordering::Less)
        } else if self.time == other.time {
            Some(Ordering::Equal)
        } else {
            Some(Ordering::Greater)
        }
    }
}

impl PartialOrdSpecImpl for Event {
    open spec fn obeys_partial_cmp_spec() -> bool {
        true
    }

    open spec fn partial_cmp_spec(&self, other: &Self) -> Option<Ordering> {
        if self.time < other.time {
            Some(Ordering::Less)
        } else if self.time == other.time {
            Some(Ordering::Equal)
        } else {
            Some(Ordering::Greater)
        }
    }
}

} // verus!
