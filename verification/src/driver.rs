//! What the loop around the core decides each turn: where a dispatched event goes, and
//! whether the run goes on.

use crate::engine::{EngineState, SimulationEngine};
use crate::entities::{system, Client, Server};
use crate::event::{Event, EventType};
use crate::statistics::{Statistics, StatisticsView};
use vstd::prelude::*;

verus! {

/// When a run ends.
#[derive(Debug, Clone, Copy)]
pub enum StopCondition {
    /// Events are dispatched as long as the next one lies before this instant.
    Time(u64),
    /// This many events are dispatched.
    Events(u64),
    /// Events are dispatched until this many customers have been served.
    Customers(u64),
}

impl StopCondition {
    /// Whether the run goes on: an event is pending, and the bound is not reached.
    pub open spec fn allows(
        self,
        engine: EngineState,
        event_count: u64,
        stats: StatisticsView,
    ) -> bool {
        &&& engine.has_pending()
        &&& match self {
            StopCondition::Time(max_time) => engine.next_time() < max_time,
            StopCondition::Events(max_events) => event_count < max_events,
            StopCondition::Customers(max_customers) => stats.served_customers < max_customers,
        }
    }

    /// Whether another turn is to be taken, `event_count` events having been dispatched.
    pub fn should_continue(
        &self,
        engine: &SimulationEngine,
        event_count: u64,
        stats: &Statistics,
    ) -> (go_on: bool)
        ensures
            go_on == self.allows(engine@, event_count, stats@),
    {
        if !engine.has_next_event() {
            return false;
        }
        match *self {
            StopCondition::Time(max_time) => engine.peek_next_time() < max_time,
            StopCondition::Events(max_events) => event_count < max_events,
            StopCondition::Customers(max_customers) => stats.served_customers() < max_customers,
        }
    }
}

/// The index of the option that a reader chose: `parsed` is the number read, counted from
/// 1, or `None` where no number was read. Anything but a number from 1 to `options` gives
/// `default`.
pub fn choice_from_input(parsed: Option<usize>, options: usize, default: usize) -> (choice: usize)
    ensures
        choice == match parsed {
            Some(n) if 1 <= n <= options => (n - 1) as usize,
            _ => default,
        },
{
    match parsed {
        Some(n) if n > 0 && n <= options => n - 1,
        _ => default,
    }
}

/// Whether handling `event` will use the service time: whether a service starts.
pub fn needs_service_time(event: Event, server: &Server) -> (needed: bool)
    ensures
        needed == server@.starts_service_on(event.event_type),
{
    match event.event_type {
        EventType::Arrival => !server.is_busy(),
        EventType::Departure => server.queue_length() > 0,
    }
}

/// Whether handling `event` will use the inter-arrival time: whether it is an arrival.
pub fn needs_inter_arrival_time(event: Event) -> (needed: bool)
    ensures
        needed == (event.event_type == EventType::Arrival),
{
    match event.event_type {
        EventType::Arrival => true,
        EventType::Departure => false,
    }
}

/// Whether `dispatch` may be called: tests its precondition.
pub fn can_dispatch(
    event: Event,
    engine: &SimulationEngine,
    client: &Client,
    server: &Server,
    stats: &Statistics,
    service_time: u64,
    inter_arrival_time: u64,
) -> (ok: bool)
    ensures
        ok == system(*engine, *server, *stats).may_handle(event, service_time, inter_arrival_time),
{
    match event.event_type {
        EventType::Arrival => client.can_handle_generate(
            engine,
            server,
            stats,
            service_time,
            inter_arrival_time,
        ),
        EventType::Departure => server.can_handle_departure(engine, stats, service_time),
    }
}

/// Hands an event that the scheduler has dispatched to the entity it concerns: an arrival
/// to the client, a departure to the server.
pub fn dispatch(
    event: Event,
    engine: &mut SimulationEngine,
    client: &Client,
    server: &mut Server,
    stats: &mut Statistics,
    service_time: u64,
    inter_arrival_time: u64,
)
    requires
        system(*old(engine), *old(server), *old(stats)).may_handle(
            event,
            service_time,
            inter_arrival_time,
        ),
    ensures
        system(*final(engine), *final(server), *final(stats)) == system(
            *old(engine),
            *old(server),
            *old(stats),
        ).handle(event, service_time, inter_arrival_time),
        event.event_type == EventType::Arrival && system(
            *old(engine),
            *old(server),
            *old(stats),
        ).is_settled() ==> system(*final(engine), *final(server), *final(stats)).is_settled(),
        event.event_type == EventType::Departure && system(
            *old(engine),
            *old(server),
            *old(stats),
        ).in_step() && old(server)@.busy && old(engine)@.departure is None ==> system(
            *final(engine),
            *final(server),
            *final(stats),
        ).is_settled(),
{
    match event.event_type {
        EventType::Arrival => {
            client.handle_generate(engine, server, stats, service_time, inter_arrival_time);
        },
        EventType::Departure => {
            server.handle_departure(engine, stats, service_time);
        },
    }
}

} // verus!
