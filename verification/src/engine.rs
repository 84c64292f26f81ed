//! The scheduler: two slots, one per kind of event, and the simulation clock.

use crate::event::{Event, EventType, NEVER};
use vstd::prelude::*;

verus! {

/// What a scheduler holds, as a mathematical value: the clock, and for each kind of event
/// the instant of the one that is pending, if any.
pub struct EngineState {
    pub now: u64,
    pub arrival: Option<u64>,
    pub departure: Option<u64>,
}

impl EngineState {
    /// A scheduler at time 0 with nothing pending.
    pub open spec fn initial() -> Self {
        EngineState { now: 0, arrival: None, departure: None }
    }

    /// The instant of the pending event of `kind`, if there is one.
    pub open spec fn pending(self, kind: EventType) -> Option<u64> {
        match kind {
            EventType::Arrival => self.arrival,
            EventType::Departure => self.departure,
        }
    }

    /// Whether `event` is one of the pending events.
    pub open spec fn holds(self, event: Event) -> bool {
        self.pending(event.event_type) == Some(event.time)
    }

    /// Whether `event` is the pending event that no pending event precedes. An arrival
    /// precedes a departure of the same instant.
    pub open spec fn is_next(self, event: Event) -> bool {
        &&& self.holds(event)
        &&& forall|other: Event| #[trigger]
            self.holds(other) ==> {
                &&& event.time <= other.time
                &&& event.event_type == EventType::Departure && other.event_type
                    == EventType::Arrival ==> event.time < other.time
            }
    }

    /// How many events of `kind` are pending.
    pub open spec fn count(self, kind: EventType) -> nat {
        if self.pending(kind) is Some {
            1
        } else {
            0
        }
    }

    pub open spec fn has_pending(self) -> bool {
        self.arrival is Some || self.departure is Some
    }

    /// The state after `event` took the slot of its kind; the other slot and the clock stay.
    pub open spec fn schedule(self, event: Event) -> Self {
        match event.event_type {
            EventType::Arrival => EngineState { arrival: Some(event.time), ..self },
            EventType::Departure => EngineState { departure: Some(event.time), ..self },
        }
    }

    /// The pending event that is dispatched next: the earlier one, and the arrival when both
    /// fall on one instant.
    pub open spec fn next_event(self) -> Option<Event> {
        match (self.arrival, self.departure) {
            (Some(a), Some(d)) => if a <= d {
                Some(Event { time: a, event_type: EventType::Arrival })
            } else {
                Some(Event { time: d, event_type: EventType::Departure })
            },
            (Some(a), None) => Some(Event { time: a, event_type: EventType::Arrival }),
            (None, Some(d)) => Some(Event { time: d, event_type: EventType::Departure }),
            (None, None) => None,
        }
    }

    /// The instant of the next event, or `NEVER`.
    pub open spec fn next_time(self) -> u64 {
        match self.next_event() {
            Some(event) => event.time,
            None => NEVER,
        }
    }

    /// The state after the next event was dispatched: its slot is empty and the clock shows
    /// its instant. With nothing pending the state stays as it is.
    pub open spec fn advance(self) -> Self {
        match self.next_event() {
            Some(event) => match event.event_type {
                EventType::Arrival => EngineState { now: event.time, arrival: None, ..self },
                EventType::Departure => EngineState { now: event.time, departure: None, ..self },
            },
            None => self,
        }
    }

    /// No pending event lies before the clock.
    pub open spec fn is_causal(self) -> bool {
        &&& self.arrival matches Some(a) ==> self.now <= a
        &&& self.departure matches Some(d) ==> self.now <= d
    }
}

/// The next-event scheduler of a system with one arrival stream and one server.
///
/// Each of the two entities only ever has one future action outstanding, so the scheduler
/// keeps one slot per kind of event instead of a priority queue.
pub struct SimulationEngine {
    next_arrival: Option<u64>,
    next_departure: Option<u64>,
    now: u64,
}

impl View for SimulationEngine {
    type V = EngineState;

    closed spec fn view(&self) -> EngineState {
        EngineState { now: self.now, arrival: self.next_arrival, departure: self.next_departure }
    }
}

impl SimulationEngine {
    pub fn new() -> (engine: Self)
        ensures
            engine@ == EngineState::initial(),
    {
        Self { next_arrival: None, next_departure: None, now: 0 }
    }

    /// Stores `event`, in place of the pending event of the same kind if there is one.
    #[inline]
    pub fn schedule(&mut self, event: Event)
        ensures
            final(self)@ == old(self)@.schedule(event),
    {
        match event.event_type {
            EventType::Arrival => {
                self.next_arrival = Some(event.time);
            },
            EventType::Departure => {
                self.next_departure = Some(event.time);
            },
        }
    }

    /// The instant of the event dispatched last, 0 before the first.
    #[inline]
    pub fn now(&self) -> (now: u64)
        ensures
            now == self@.now,
    {
        self.now
    }

    #[inline]
    pub fn has_next_event(&self) -> (pending: bool)
        ensures
            pending == self@.has_pending(),
    {
        self.next_arrival.is_some() || self.next_departure.is_some()
    }

    /// The instant of the next event, or `NEVER` when nothing is pending.
    #[inline]
    pub fn peek_next_time(&self) -> (time: u64)
        ensures
            time == self@.next_time(),
    {
        match (self.next_arrival, self.next_departure) {
            (Some(arrival), Some(departure)) => if arrival <= departure {
                arrival
            } else {
                departure
            },
            (Some(arrival), None) => arrival,
            (None, Some(departure)) => departure,
            (None, None) => NEVER,
        }
    }

    /// Removes the next event from its slot, sets the clock to its instant and hands it to
    /// the caller, who dispatches it to the entity it concerns.
    #[inline]
    pub fn run_step(&mut self) -> (event: Option<Event>)
        ensures
            event == old(self)@.next_event(),
            final(self)@ == old(self)@.advance(),
            old(self)@.is_causal() ==> final(self)@.is_causal(),
            old(self)@.is_causal() ==> old(self)@.now <= final(self)@.now,
    {
        let arrival_is_next = match (self.next_arrival, self.next_departure) {
            (Some(arrival), Some(departure)) => arrival <= departure,
            (Some(_), None) => true,
            (None, _) => false,
        };
        let event = if arrival_is_next {
            match self.next_arrival {
                Some(time) => {
                    self.next_arrival = None;
                    Some(Event::new(time, EventType::Arrival))
                },
                None => None,
            }
        } else {
            match self.next_departure {
                Some(time) => {
                    self.next_departure = None;
                    Some(Event::new(time, EventType::Departure))
                },
                None => None,
            }
        };
        if let Some(e) = event {
            self.now = e.time;
        }
        event
    }

    /// The number of pending events.
    #[inline]
    pub fn queue_size(&self) -> (count: usize)
        ensures
            count == self@.count(EventType::Arrival) + self@.count(EventType::Departure),
    {
        let mut count: usize = 0;
        if self.next_arrival.is_some() {
            count += 1;
        }
        if self.next_departure.is_some() {
            count += 1;
        }
        count
    }
}

/// One call on a scheduler.
pub enum Command {
    Schedule(Event),
    Advance,
}

impl EngineState {
    /// The state after one call.
    pub open spec fn apply(self, command: Command) -> Self {
        match command {
            Command::Schedule(event) => self.schedule(event),
            Command::Advance => self.advance(),
        }
    }

    /// Whether a call respects the clock: nothing is scheduled before `now`.
    pub open spec fn admits(self, command: Command) -> bool {
        match command {
            Command::Schedule(event) => self.now <= event.time,
            Command::Advance => true,
        }
    }

    /// The state after the first `n` of `commands`.
    pub open spec fn after(self, commands: Seq<Command>, n: nat) -> Self
        decreases n,
    {
        if n == 0 {
            self
        } else {
            self.after(commands, (n - 1) as nat).apply(commands[n - 1])
        }
    }

    /// Whether each of `commands` respects the clock at the moment it is made.
    pub open spec fn admits_all(self, commands: Seq<Command>) -> bool {
        forall|k: nat|
            k < commands.len() ==> (#[trigger] self.after(commands, k)).admits(commands[k as int])
    }

    /// The state after each of `events` was scheduled in turn.
    pub open spec fn schedule_all(self, events: Seq<Event>) -> Self
        decreases events.len(),
    {
        if events.len() == 0 {
            self
        } else {
            self.schedule_all(events.drop_last()).schedule(events.last())
        }
    }
}

/// The instant of the last event of `kind` among `events`, if there is one.
pub open spec fn last_of_kind(events: Seq<Event>, kind: EventType) -> Option<u64>
    decreases events.len(),
{
    if events.len() == 0 {
        None
    } else if events.last().event_type == kind {
        Some(events.last().time)
    } else {
        last_of_kind(events.drop_last(), kind)
    }
}

/// The rule of selection, stated without the slots: the next event is the pending event
/// that no pending event precedes, where an arrival precedes a departure of its own
/// instant. Nothing is next exactly when nothing is pending.
pub proof fn lemma_next_event_is_earliest(state: EngineState, event: Event)
    ensures
        state.next_event() == Some(event) <==> state.is_next(event),
        state.next_event() is None <==> !state.has_pending(),
{
    if state.is_next(event) {
        if state.arrival is Some {
            assert(state.holds(Event { time: state.arrival->0, event_type: EventType::Arrival }));
        }
        if state.departure is Some {
            assert(state.holds(
                Event { time: state.departure->0, event_type: EventType::Departure },
            ));
        }
    }
}

/// An arrival and a departure pending at one instant are dispatched in that order, the
/// arrival first, and the clock shows their instant after each.
pub proof fn lemma_tie_goes_to_arrival(state: EngineState, time: u64)
    requires
        state.arrival == Some(time),
        state.departure == Some(time),
    ensures
        state.next_event() == Some(Event { time, event_type: EventType::Arrival }),
        state.advance().now == time,
        state.advance().next_event() == Some(Event { time, event_type: EventType::Departure }),
        state.advance().advance().now == time,
        !state.advance().advance().has_pending(),
{
}

/// Dispatching keeps the clock from running backwards, as long as no pending event lies in
/// the past; and then none does afterwards.
pub proof fn lemma_advance_moves_forward(state: EngineState)
    requires
        state.is_causal(),
    ensures
        state.now <= state.advance().now,
        state.advance().is_causal(),
        state.next_event() matches Some(event) ==> state.advance().now == event.time,
{
}

/// Through any run of calls that schedule nothing in the past, no pending event ever lies
/// before the clock.
pub proof fn lemma_run_stays_causal(start: EngineState, commands: Seq<Command>, n: nat)
    requires
        start.is_causal(),
        start.admits_all(commands),
        n <= commands.len(),
    ensures
        start.after(commands, n).is_causal(),
    decreases n,
{
    if n > 0 {
        let before = (n - 1) as nat;
        lemma_run_stays_causal(start, commands, before);
        assert(start.after(commands, before).admits(commands[before as int]));
    }
}

/// Time is monotone: through any run of calls that schedule nothing in the past, the clock
/// never shows less than it showed before.
pub proof fn lemma_time_is_monotone(start: EngineState, commands: Seq<Command>, i: nat, j: nat)
    requires
        start.is_causal(),
        start.admits_all(commands),
        i <= j <= commands.len(),
    ensures
        start.after(commands, i).now <= start.after(commands, j).now,
    decreases j,
{
    if i < j {
        let before = (j - 1) as nat;
        lemma_time_is_monotone(start, commands, i, before);
        lemma_run_stays_causal(start, commands, before);
        lemma_advance_moves_forward(start.after(commands, before));
    }
}

/// The events that successive dispatches hand out come in order of time: of two dispatches
/// in one run, the later one returns no earlier instant.
pub proof fn lemma_dispatched_in_time_order(
    start: EngineState,
    commands: Seq<Command>,
    i: nat,
    j: nat,
    first: Event,
    second: Event,
)
    requires
        start.is_causal(),
        start.admits_all(commands),
        i <= j < commands.len(),
        commands[i as int] is Advance,
        commands[j as int] is Advance,
        start.after(commands, i).next_event() == Some(first),
        start.after(commands, j).next_event() == Some(second),
    ensures
        first.time <= second.time,
        first.time == start.after(commands, i + 1).now,
        second.time == start.after(commands, j + 1).now,
{
    lemma_run_stays_causal(start, commands, i);
    lemma_run_stays_causal(start, commands, j);
    lemma_advance_moves_forward(start.after(commands, i));
    lemma_advance_moves_forward(start.after(commands, j));
    assert(start.after(commands, i + 1) == start.after(commands, i).advance());
    assert(start.after(commands, j + 1) == start.after(commands, j).advance());
    lemma_time_is_monotone(start, commands, i + 1, j + 1);
}

/// One event per kind: after any sequence of `schedule` calls each kind has at most one
/// event pending. It is the last one scheduled of that kind, or the one that was pending
/// before if none of that kind was scheduled. The clock has not moved.
pub proof fn lemma_one_pending_per_kind(start: EngineState, events: Seq<Event>, kind: EventType)
    ensures
        start.schedule_all(events).count(kind) <= 1,
        start.schedule_all(events).now == start.now,
        start.schedule_all(events).pending(kind) == match last_of_kind(events, kind) {
            Some(time) => Some(time),
            None => start.pending(kind),
        },
        last_of_kind(events, kind) is Some <==> exists|i: int|
            0 <= i < events.len() && (#[trigger] events[i]).event_type == kind,
    decreases events.len(),
{
    if events.len() > 0 {
        let earlier = events.drop_last();
        lemma_one_pending_per_kind(start, earlier, kind);
        if events.last().event_type == kind {
            assert(events[events.len() - 1].event_type == kind);
        } else if last_of_kind(earlier, kind) is Some {
            let i = choose|i: int|
                0 <= i < earlier.len() && (#[trigger] earlier[i]).event_type == kind;
            assert(events[i] == earlier[i]);
        } else {
            assert forall|i: int| 0 <= i < events.len() implies (#[trigger] events[i]).event_type
                != kind by {
                if i < earlier.len() {
                    assert(events[i] == earlier[i]);
                }
            }
        }
    }
}

/// Once an arrival was scheduled, exactly one arrival is pending, whatever was scheduled
/// after it.
pub proof fn lemma_scheduled_kind_stays_pending(
    start: EngineState,
    events: Seq<Event>,
    i: int,
)
    requires
        0 <= i < events.len(),
    ensures
        start.schedule_all(events).count(events[i].event_type) == 1,
{
    lemma_one_pending_per_kind(start, events, events[i].event_type);
}

} // verus!
