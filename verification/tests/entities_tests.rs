use single_server_queue::engine::SimulationEngine;
use single_server_queue::entities::{Client, Server};
use single_server_queue::event::{Event, EventType};
use single_server_queue::statistics::{Ratio, Statistics};

fn occupancy_holds(server: &Server, stats: &Statistics) -> bool {
    let in_service = if server.is_busy() { 1 } else { 0 };
    stats.current_queue_length() == server.queue_length()
        && stats.is_server_busy() == server.is_busy()
        && stats.current_customers_in_system() == server.queue_length() + in_service
}

#[test]
fn single_customer_walk_through() {
    // Arrival rate 0.1 and service rate 1/9 per unit of time, a thousand ticks to the unit.
    let client = Client::new(10_000);
    let mut server = Server::new(9_000);
    let mut stats = Statistics::new();
    let mut engine = SimulationEngine::new();
    assert_eq!(client.mean_interarrival_time(), 10_000);
    assert_eq!(server.mean_service_time(), 9_000);

    engine.schedule(Event::new(0, EventType::Arrival));
    let arrival = engine.run_step().unwrap();
    assert_eq!((arrival.time, arrival.event_type), (0, EventType::Arrival));
    assert!(!server.is_busy());

    assert!(client.can_handle_generate(&engine, &server, &stats, 9_000, 10_000));
    client.handle_generate(&mut engine, &mut server, &mut stats, 9_000, 10_000);
    assert!(server.is_busy());
    assert_eq!(server.queue_length(), 0);
    assert_eq!(stats.current_queue_length(), 0);
    assert_eq!(stats.current_customers_in_system(), 1);
    assert_eq!(stats.served_customers(), 0);
    assert_eq!(stats.total_wait_time(), 0);
    assert_eq!(engine.queue_size(), 2);
    assert_eq!(engine.peek_next_time(), 9_000);

    let departure = engine.run_step().unwrap();
    assert_eq!((departure.time, departure.event_type), (9_000, EventType::Departure));
    assert_eq!(stats.served_customers(), 0);

    assert!(server.can_handle_departure(&engine, &stats, 4_000));
    server.handle_departure(&mut engine, &mut stats, 4_000);
    assert_eq!(stats.served_customers(), 1);
    assert_eq!(stats.total_wait_time(), 0);
    assert_eq!(stats.average_wait_time(), Ratio { numerator: 0, denominator: 1 });
    assert_eq!(stats.total_busy_time(), 9_000);
    assert!(!server.is_busy());
    assert_eq!(stats.current_customers_in_system(), 0);
    // The server is idle, so no departure is scheduled; the next arrival is.
    assert_eq!(engine.queue_size(), 1);
    assert_eq!(engine.peek_next_time(), 10_000);
    assert_eq!(stats.average_customers_in_system(9_000), Ratio { numerator: 9_000, denominator: 9_000 });
    assert_eq!(stats.average_queue_length(9_000), Ratio { numerator: 0, denominator: 9_000 });
}

#[test]
fn start_service_on_empty_queue_changes_nothing() {
    let mut server = Server::new(5);
    let mut stats = Statistics::new();
    let mut engine = SimulationEngine::new();
    engine.schedule(Event::new(3, EventType::Arrival));
    engine.run_step();
    assert!(server.can_start_service(&engine, &stats, 7));
    server.start_service(&mut engine, &mut stats, 7);
    assert!(!server.is_busy());
    assert_eq!(server.queue_length(), 0);
    assert!(!engine.has_next_event());
    assert_eq!(engine.queue_size(), 0);
    assert_eq!(engine.now(), 3);
    assert_eq!(stats.last_event_time(), 0);
    assert_eq!(stats.served_customers(), 0);
    assert_eq!(stats.total_wait_time(), 0);
    assert_eq!(stats.current_customers_in_system(), 0);
    assert!(!stats.is_server_busy());
}

#[test]
fn start_service_on_empty_queue_may_be_asked_in_any_state() {
    let server = Server::new(5);
    let mut stats = Statistics::new();
    let engine = SimulationEngine::new();
    stats.record_queue_change(100, 0);
    // The accumulator is ahead of the clock, but nothing would be recorded.
    assert!(server.can_start_service(&engine, &stats, u64::MAX));
}

#[test]
fn customers_queue_behind_a_busy_server() {
    let mut server = Server::new(10);
    let mut stats = Statistics::new();
    let mut engine = SimulationEngine::new();

    engine.schedule(Event::new(2, EventType::Arrival));
    engine.run_step();
    server.receive_customer(&mut engine, &mut stats, 10);
    assert!(server.is_busy());
    assert_eq!(engine.peek_next_time(), 12);
    assert!(occupancy_holds(&server, &stats));

    engine.schedule(Event::new(4, EventType::Arrival));
    let second = engine.run_step().unwrap();
    assert_eq!(second.event_type, EventType::Arrival);
    server.receive_customer(&mut engine, &mut stats, 99);
    assert_eq!(server.queue_length(), 1);
    // The service under way is not replaced.
    assert_eq!(engine.peek_next_time(), 12);
    assert!(occupancy_holds(&server, &stats));

    engine.schedule(Event::new(7, EventType::Arrival));
    engine.run_step();
    server.receive_customer(&mut engine, &mut stats, 99);
    assert_eq!(server.queue_length(), 2);
    assert_eq!(stats.current_customers_in_system(), 3);
    assert!(occupancy_holds(&server, &stats));

    let departure = engine.run_step().unwrap();
    assert_eq!((departure.time, departure.event_type), (12, EventType::Departure));
    server.handle_departure(&mut engine, &mut stats, 5);
    // The customer of instant 4 enters service at 12, having waited 8.
    assert!(server.is_busy());
    assert_eq!(server.queue_length(), 1);
    assert_eq!(stats.served_customers(), 1);
    assert_eq!(stats.total_wait_time(), 8);
    assert_eq!(stats.total_busy_time(), 10);
    assert_eq!(engine.peek_next_time(), 17);
    assert!(occupancy_holds(&server, &stats));

    let departure = engine.run_step().unwrap();
    assert_eq!((departure.time, departure.event_type), (17, EventType::Departure));
    server.handle_departure(&mut engine, &mut stats, 1);
    // The customer of instant 7 enters service at 17, having waited 10.
    assert_eq!(stats.total_wait_time(), 18);
    assert_eq!(stats.served_customers(), 2);
    assert_eq!(server.queue_length(), 0);
    assert_eq!(engine.peek_next_time(), 18);

    engine.run_step();
    server.handle_departure(&mut engine, &mut stats, 1);
    assert!(!server.is_busy());
    assert!(!engine.has_next_event());
    assert_eq!(stats.served_customers(), 3);
    assert_eq!(stats.total_busy_time(), 16);
    assert_eq!(stats.average_wait_time(), Ratio { numerator: 18, denominator: 3 });
    // Queue length: 1 on [4, 7), 2 on [7, 12), 1 on [12, 17), 0 after.
    assert_eq!(stats.average_queue_length(18), Ratio { numerator: 18, denominator: 18 });
    // In system: 1 on [2, 4), 2 on [4, 7), 3 on [7, 12), 2 on [12, 17), 1 on [17, 18).
    assert_eq!(stats.average_customers_in_system(18), Ratio { numerator: 34, denominator: 18 });
    assert_eq!(stats.utilization(18), Ratio { numerator: 16, denominator: 18 });
    assert!(occupancy_holds(&server, &stats));
}

#[test]
fn handle_generate_schedules_next_arrival() {
    let client = Client::new(3);
    let mut server = Server::new(10);
    let mut stats = Statistics::new();
    let mut engine = SimulationEngine::new();
    engine.schedule(Event::new(5, EventType::Arrival));
    engine.run_step();
    client.handle_generate(&mut engine, &mut server, &mut stats, 20, 3);
    assert_eq!(engine.queue_size(), 2);
    let next = engine.run_step().unwrap();
    assert_eq!((next.time, next.event_type), (8, EventType::Arrival));
    client.handle_generate(&mut engine, &mut server, &mut stats, 20, 0);
    assert_eq!(server.queue_length(), 1);
    let next = engine.run_step().unwrap();
    assert_eq!((next.time, next.event_type), (8, EventType::Arrival));
    let last = engine.peek_next_time();
    assert_eq!(last, 25);
}

#[test]
fn checks_refuse_a_clock_behind_the_statistics() {
    let client = Client::new(3);
    let mut server = Server::new(10);
    let mut stats = Statistics::new();
    let mut engine = SimulationEngine::new();
    engine.schedule(Event::new(5, EventType::Arrival));
    engine.run_step();
    server.receive_customer(&mut engine, &mut stats, 10);
    let stale = SimulationEngine::new();
    assert!(!server.can_receive_customer(&stale, &stats, 1));
    assert!(!server.can_handle_departure(&stale, &stats, 1));
    assert!(!client.can_handle_generate(&stale, &server, &stats, 1, 1));
    assert!(server.can_receive_customer(&engine, &stats, 1));
    assert!(server.can_handle_departure(&engine, &stats, 1));
}

#[test]
fn checks_refuse_instants_beyond_the_clock() {
    let client = Client::new(3);
    let server = Server::new(10);
    let stats = Statistics::new();
    let mut engine = SimulationEngine::new();
    engine.schedule(Event::new(10, EventType::Arrival));
    engine.run_step();
    assert!(server.can_receive_customer(&engine, &stats, u64::MAX - 10));
    assert!(!server.can_receive_customer(&engine, &stats, u64::MAX - 9));
    assert!(client.can_handle_generate(&engine, &server, &stats, 1, u64::MAX - 10));
    assert!(!client.can_handle_generate(&engine, &server, &stats, 1, u64::MAX - 9));
    // With nobody waiting a departure starts no service, whatever the duration.
    assert!(server.can_handle_departure(&engine, &stats, u64::MAX));
}

#[test]
fn check_refuses_a_customer_from_the_future() {
    let mut server = Server::new(10);
    let mut stats = Statistics::new();
    let mut engine = SimulationEngine::new();
    engine.schedule(Event::new(50, EventType::Arrival));
    engine.run_step();
    server.receive_customer(&mut engine, &mut stats, 10);
    server.receive_customer(&mut engine, &mut stats, 10);
    assert_eq!(server.queue_length(), 1);
    // A scheduler that shows an earlier time than the one at which the customer arrived.
    let mut early = SimulationEngine::new();
    early.schedule(Event::new(49, EventType::Departure));
    early.run_step();
    assert!(!server.can_start_service(&early, &stats, 1));
    assert!(server.can_start_service(&engine, &stats, 1));
}

#[test]
fn busy_server_has_its_departure_scheduled() {
    let client = Client::new(4);
    let mut server = Server::new(6);
    let mut stats = Statistics::new();
    let mut engine = SimulationEngine::new();
    engine.schedule(Event::new(0, EventType::Arrival));
    let mut seed: u64 = 99;
    let mut departures_pending = 0usize;
    for _ in 0..5_000 {
        let event = engine.run_step().unwrap();
        if event.event_type == EventType::Departure {
            departures_pending -= 1;
        }
        seed = seed.wrapping_mul(6364136223846793005).wrapping_add(1442695040888963407);
        let service_time = (seed >> 40) % 12;
        let inter_arrival_time = (seed >> 20) % 9;
        let was_busy = server.is_busy();
        let waiting = server.queue_length();
        match event.event_type {
            EventType::Arrival => {
                client.handle_generate(&mut engine, &mut server, &mut stats, service_time, inter_arrival_time);
                if !was_busy {
                    departures_pending += 1;
                }
            }
            EventType::Departure => {
                server.handle_departure(&mut engine, &mut stats, service_time);
                if waiting > 0 {
                    departures_pending += 1;
                }
            }
        }
        assert_eq!(server.is_busy(), departures_pending == 1);
        assert_eq!(engine.queue_size(), 1 + departures_pending);
        assert!(occupancy_holds(&server, &stats));
        assert!(server.is_busy() || server.queue_length() == 0);
        assert_eq!(stats.last_event_time(), engine.now());
    }
    assert!(stats.served_customers() > 1_000);
}
