use single_server_queue::driver::{
    can_dispatch, choice_from_input, dispatch, needs_inter_arrival_time, needs_service_time,
    StopCondition,
};
use single_server_queue::engine::SimulationEngine;
use single_server_queue::entities::{Client, Server};
use single_server_queue::event::{Event, EventType};
use single_server_queue::statistics::Statistics;

fn exponential(rng: &mut fastrand::Rng, mean: u64) -> u64 {
    // A uniform draw from (0, 1], then the inverse of the exponential distribution.
    let u = 1.0 - rng.f64();
    (-u.ln() * mean as f64) as u64
}

struct Run {
    engine: SimulationEngine,
    stats: Statistics,
    events: u64,
}

fn run(seed: u64, mean_interarrival: u64, mean_service: u64, stop: StopCondition) -> Run {
    let mut rng = fastrand::Rng::with_seed(seed);
    let mut engine = SimulationEngine::new();
    let mut stats = Statistics::new();
    let mut server = Server::new(mean_service);
    let client = Client::new(mean_interarrival);
    let mut events = 0u64;
    let mut last = 0u64;
    engine.schedule(Event::new(0, EventType::Arrival));
    while stop.should_continue(&engine, events, &stats) {
        let event = engine.run_step().unwrap();
        events += 1;
        assert!(event.time >= last);
        last = event.time;
        let service_time = if needs_service_time(event, &server) {
            exponential(&mut rng, mean_service)
        } else {
            0
        };
        let inter_arrival_time = if needs_inter_arrival_time(event) {
            exponential(&mut rng, mean_interarrival)
        } else {
            0
        };
        assert!(can_dispatch(event, &engine, &client, &server, &stats, service_time, inter_arrival_time));
        dispatch(event, &mut engine, &client, &mut server, &mut stats, service_time, inter_arrival_time);
        let in_service = if server.is_busy() { 1 } else { 0 };
        assert_eq!(stats.current_customers_in_system(), stats.current_queue_length() + in_service);
        assert_eq!(stats.current_queue_length(), server.queue_length());
        assert!(stats.total_busy_time() <= engine.now() as u128);
    }
    Run { engine, stats, events }
}

#[test]
fn should_continue_stops_without_pending_event() {
    let engine = SimulationEngine::new();
    let stats = Statistics::new();
    assert!(!StopCondition::Time(u64::MAX).should_continue(&engine, 0, &stats));
    assert!(!StopCondition::Events(u64::MAX).should_continue(&engine, 0, &stats));
    assert!(!StopCondition::Customers(u64::MAX).should_continue(&engine, 0, &stats));
}

#[test]
fn should_continue_by_time_looks_at_next_event() {
    let mut engine = SimulationEngine::new();
    let stats = Statistics::new();
    engine.schedule(Event::new(10, EventType::Arrival));
    assert!(StopCondition::Time(11).should_continue(&engine, 0, &stats));
    assert!(!StopCondition::Time(10).should_continue(&engine, 0, &stats));
    assert!(!StopCondition::Time(0).should_continue(&engine, 0, &stats));
    engine.schedule(Event::new(4, EventType::Departure));
    assert!(StopCondition::Time(5).should_continue(&engine, 0, &stats));
    assert!(!StopCondition::Time(4).should_continue(&engine, 0, &stats));
}

#[test]
fn should_continue_by_events_counts_dispatched_events() {
    let mut engine = SimulationEngine::new();
    let stats = Statistics::new();
    engine.schedule(Event::new(10, EventType::Arrival));
    assert!(StopCondition::Events(3).should_continue(&engine, 2, &stats));
    assert!(!StopCondition::Events(3).should_continue(&engine, 3, &stats));
    assert!(!StopCondition::Events(0).should_continue(&engine, 0, &stats));
}

#[test]
fn should_continue_by_customers_counts_served_customers() {
    let mut engine = SimulationEngine::new();
    let mut stats = Statistics::new();
    engine.schedule(Event::new(10, EventType::Arrival));
    assert!(StopCondition::Customers(1).should_continue(&engine, 100, &stats));
    stats.record_service_start(0, 0);
    assert!(StopCondition::Customers(1).should_continue(&engine, 100, &stats));
    stats.record_service_end(5, 5);
    assert!(!StopCondition::Customers(1).should_continue(&engine, 100, &stats));
    assert!(StopCondition::Customers(2).should_continue(&engine, 100, &stats));
}

#[test]
fn dispatch_sends_arrival_to_client_and_departure_to_server() {
    let mut engine = SimulationEngine::new();
    let mut stats = Statistics::new();
    let mut server = Server::new(9);
    let client = Client::new(10);
    engine.schedule(Event::new(0, EventType::Arrival));
    let arrival = engine.run_step().unwrap();
    dispatch(arrival, &mut engine, &client, &mut server, &mut stats, 9, 10);
    assert!(server.is_busy());
    assert_eq!(engine.queue_size(), 2);
    let departure = engine.run_step().unwrap();
    assert_eq!(departure.event_type, EventType::Departure);
    assert!(can_dispatch(departure, &engine, &client, &server, &stats, 9, 10));
    dispatch(departure, &mut engine, &client, &mut server, &mut stats, 9, 10);
    assert!(!server.is_busy());
    assert_eq!(stats.served_customers(), 1);
    assert_eq!(engine.queue_size(), 1);
    assert_eq!(engine.peek_next_time(), 10);
}

#[test]
fn can_dispatch_refuses_what_does_not_fit() {
    let mut engine = SimulationEngine::new();
    let stats = Statistics::new();
    let server = Server::new(9);
    let client = Client::new(10);
    engine.schedule(Event::new(100, EventType::Arrival));
    let arrival = engine.run_step().unwrap();
    assert!(can_dispatch(arrival, &engine, &client, &server, &stats, 9, u64::MAX - 100));
    assert!(!can_dispatch(arrival, &engine, &client, &server, &stats, 9, u64::MAX - 99));
    assert!(!can_dispatch(arrival, &engine, &client, &server, &stats, u64::MAX - 99, 1));
}

#[test]
fn run_stops_at_event_bound() {
    let outcome = run(1, 2_000, 1_000, StopCondition::Events(10_000));
    assert_eq!(outcome.events, 10_000);
    assert!(outcome.engine.has_next_event());
}

#[test]
fn run_stops_at_customer_bound() {
    let outcome = run(2, 2_000, 1_000, StopCondition::Customers(5_000));
    assert_eq!(outcome.stats.served_customers(), 5_000);
}

#[test]
fn run_stops_before_time_bound() {
    let outcome = run(3, 2_000, 1_000, StopCondition::Time(5_000_000));
    assert!(outcome.engine.now() < 5_000_000);
    assert!(outcome.engine.peek_next_time() >= 5_000_000);
    assert!(outcome.events > 1_000);
}

#[test]
fn long_run_approaches_steady_state() {
    // Arrival rate 0.5 and service rate 1 per unit of time, a million ticks to the unit.
    let ticks_per_unit = 1_000_000.0;
    let outcome = run(7, 2_000_000, 1_000_000, StopCondition::Events(4_000_000));
    let total_time = outcome.engine.now();
    let stats = &outcome.stats;
    let wait = stats.average_wait_time();
    let mean_wait = wait.numerator as f64 / wait.denominator as f64 / ticks_per_unit;
    let length = stats.average_queue_length(total_time);
    let mean_length = length.numerator as f64 / length.denominator as f64;
    let busy = stats.utilization(total_time);
    let utilization = busy.numerator as f64 / busy.denominator as f64;
    let in_system = stats.average_customers_in_system(total_time);
    let mean_in_system = in_system.numerator as f64 / in_system.denominator as f64;
    let rate = stats.throughput(total_time);
    let throughput = rate.numerator as f64 / rate.denominator as f64 * ticks_per_unit;

    let (lambda, mu) = (0.5, 1.0);
    let rho = lambda / mu;
    assert!((mean_wait - rho / (mu - lambda)).abs() < 0.03 * rho / (mu - lambda));
    assert!((mean_length - rho * rho / (1.0 - rho)).abs() < 0.03 * rho * rho / (1.0 - rho));
    assert!((utilization - rho).abs() < 0.03 * rho);
    assert!((mean_in_system - rho / (1.0 - rho)).abs() < 0.03 * rho / (1.0 - rho));
    assert!((throughput - lambda).abs() < 0.03 * lambda);
}

#[test]
fn choice_from_input_counts_from_one() {
    assert_eq!(choice_from_input(Some(1), 3, 2), 0);
    assert_eq!(choice_from_input(Some(2), 3, 0), 1);
    assert_eq!(choice_from_input(Some(3), 3, 0), 2);
}

#[test]
fn choice_from_input_falls_back_to_default() {
    assert_eq!(choice_from_input(None, 3, 1), 1);
    assert_eq!(choice_from_input(Some(0), 3, 1), 1);
    assert_eq!(choice_from_input(Some(4), 3, 1), 1);
    assert_eq!(choice_from_input(Some(usize::MAX), 3, 2), 2);
    assert_eq!(choice_from_input(Some(1), 0, 7), 7);
    assert_eq!(choice_from_input(Some(usize::MAX), usize::MAX, 0), usize::MAX - 1);
}

#[test]
fn service_time_is_needed_only_where_a_service_starts() {
    let mut engine = SimulationEngine::new();
    let mut stats = Statistics::new();
    let mut server = Server::new(9);
    let client = Client::new(10);
    let arrival = Event::new(0, EventType::Arrival);
    let departure = Event::new(0, EventType::Departure);
    assert!(needs_inter_arrival_time(arrival));
    assert!(!needs_inter_arrival_time(departure));
    // Idle, nobody waits: an arrival starts a service, a departure starts none.
    assert!(needs_service_time(arrival, &server));
    assert!(!needs_service_time(departure, &server));
    engine.schedule(arrival);
    engine.run_step();
    dispatch(arrival, &mut engine, &client, &mut server, &mut stats, 50, 1);
    // Busy, nobody waits: neither starts a service.
    assert!(!needs_service_time(arrival, &server));
    assert!(!needs_service_time(departure, &server));
    let second = engine.run_step().unwrap();
    assert_eq!((second.time, second.event_type), (1, EventType::Arrival));
    // The duration handed over is not used: the departure stays where it was.
    dispatch(second, &mut engine, &client, &mut server, &mut stats, 0, 100);
    assert_eq!(engine.peek_next_time(), 50);
    // Busy, one waits: a departure starts the next service.
    assert!(needs_service_time(departure, &server));
    assert!(!needs_service_time(arrival, &server));
}
