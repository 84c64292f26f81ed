use single_server_queue::event::{Event, EventType};
use std::cmp::Ordering;

#[test]
fn new_event_keeps_its_fields() {
    let event = Event::new(42, EventType::Departure);
    assert_eq!(event.time, 42);
    assert_eq!(event.event_type, EventType::Departure);
}

#[test]
fn events_compare_by_time_alone() {
    let arrival = Event::new(5, EventType::Arrival);
    let departure = Event::new(5, EventType::Departure);
    assert!(arrival == departure);
    assert!(arrival != Event::new(6, EventType::Arrival));
}

#[test]
fn events_are_ordered_by_time_ascending() {
    let early = Event::new(1, EventType::Departure);
    let late = Event::new(2, EventType::Arrival);
    assert!(early < late);
    assert!(late > early);
    assert!(early <= Event::new(1, EventType::Arrival));
    assert_eq!(early.partial_cmp(&late), Some(Ordering::Less));
    assert_eq!(late.partial_cmp(&early), Some(Ordering::Greater));
    assert_eq!(early.partial_cmp(&Event::new(1, EventType::Arrival)), Some(Ordering::Equal));
}

#[test]
fn event_types_differ() {
    assert_ne!(EventType::Arrival, EventType::Departure);
    assert_eq!(EventType::Arrival, EventType::Arrival);
}
