use vscode_latency_monitor::bus::{EventBus, MAX_CAPACITY};
use vscode_latency_monitor::models::{ComponentType, EventSource, LatencyEvent};

fn event(stamp: i64, text: &str) -> LatencyEvent {
    LatencyEvent::at(
        stamp,
        ComponentType::Terminal,
        EventSource::TestCommand,
        1_500,
        text.to_string(),
    )
}

#[test]
fn bus_rejects_zero_and_oversized_capacity() {
    assert!(EventBus::new(0).is_none());
    assert!(EventBus::new(MAX_CAPACITY + 1).is_none());
    assert!(EventBus::new(1).is_some());
    assert!(EventBus::new(MAX_CAPACITY).is_some());
}

#[test]
fn bus_is_first_in_first_out() {
    let mut bus = EventBus::new(4).unwrap();
    assert!(bus.publish(event(1, "a")));
    assert!(bus.publish(event(2, "b")));
    assert!(bus.publish(event(3, "c")));
    assert_eq!(bus.len(), 3);
    assert_eq!(bus.next().unwrap().description, "a");
    assert_eq!(bus.next().unwrap().description, "b");
    assert_eq!(bus.next().unwrap().description, "c");
    assert!(bus.next().is_none());
    assert_eq!(bus.dropped_events(), 0);
}

#[test]
fn full_bus_drops_the_newest_and_counts_it() {
    let mut bus = EventBus::new(2).unwrap();
    assert!(bus.publish(event(1, "kept-1")));
    assert!(bus.publish(event(2, "kept-2")));
    assert!(!bus.publish(event(3, "dropped-1")));
    assert!(!bus.publish(event(4, "dropped-2")));
    assert_eq!(bus.dropped_events(), 2);
    assert_eq!(bus.len(), 2);
    let left = bus.drain();
    assert_eq!(left.len(), 2);
    assert_eq!(left[0].description, "kept-1");
    assert_eq!(left[1].description, "kept-2");
    assert_eq!(bus.len(), 0);
}

#[test]
fn batch_into_full_bus_drops_exactly_the_excess() {
    let mut bus = EventBus::new(5).unwrap();
    let batch: Vec<LatencyEvent> = (0..12).map(|i| event(i, &format!("e{}", i))).collect();
    let accepted = bus.publish_all(&batch);
    assert_eq!(accepted, 5);
    assert_eq!(bus.dropped_events(), 7);
    let more: Vec<LatencyEvent> = (12..15).map(|i| event(i, &format!("e{}", i))).collect();
    assert_eq!(bus.publish_all(&more), 0);
    assert_eq!(bus.dropped_events(), 10);
    let held = bus.drain();
    let names: Vec<String> = held.iter().map(|e| e.description.clone()).collect();
    assert_eq!(names, vec!["e0", "e1", "e2", "e3", "e4"]);
}

#[test]
fn room_freed_by_a_consumer_is_used_again() {
    let mut bus = EventBus::new(1).unwrap();
    assert!(bus.publish(event(1, "first")));
    assert!(!bus.publish(event(2, "second")));
    assert_eq!(bus.next().unwrap().description, "first");
    assert!(bus.publish(event(3, "third")));
    assert_eq!(bus.max_len(), 1);
    assert_eq!(bus.dropped_events(), 1);
    assert_eq!(bus.discard(), 1);
    assert_eq!(bus.len(), 0);
    assert_eq!(bus.dropped_events(), 1);
}

#[test]
fn offers_mixed_with_takes_lose_nothing_but_what_is_counted() {
    let mut bus = EventBus::new(3).unwrap();
    let mut handed: Vec<String> = Vec::new();
    let mut admitted: Vec<String> = Vec::new();
    let mut refused = 0;
    for round in 0..40 {
        if round % 5 == 3 || round % 7 == 6 {
            if let Some(event) = bus.next() {
                handed.push(event.description);
            }
        } else {
            let name = format!("e{}", round);
            if bus.publish(event(round, &name)) {
                admitted.push(name);
            } else {
                refused += 1;
            }
        }
        assert!(bus.len() <= 3);
        assert_eq!(bus.dropped_events(), refused);
    }
    assert!(refused > 0);
    let waiting: Vec<String> = bus.drain().into_iter().map(|e| e.description).collect();
    handed.extend(waiting);
    assert_eq!(handed, admitted);
}
