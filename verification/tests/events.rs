use cluster_runtime::events::{ClusterEvent, EventBus};

fn started(i: usize) -> ClusterEvent {
    ClusterEvent::JobStarted { job_id: format!("j{}", i) }
}

#[test]
fn history_keeps_the_latest_events() {
    let mut bus = EventBus::new(3);
    for i in 0..5 {
        bus.publish(started(i));
    }
    let recent = bus.recent_events(10);
    assert_eq!(recent, vec![started(2), started(3), started(4)]);
    assert_eq!(bus.recent_events(2), vec![started(3), started(4)]);
    assert!(bus.recent_events(0).is_empty());
}

#[test]
fn zero_capacity_keeps_nothing() {
    let mut bus = EventBus::new(0);
    bus.publish(started(1));
    assert!(bus.recent_events(5).is_empty());
}

#[test]
fn default_bus_holds_a_hundred() {
    let mut bus = EventBus::default();
    for i in 0..150 {
        bus.publish(started(i));
    }
    let all = bus.recent_events(1000);
    assert_eq!(all.len(), 100);
    assert_eq!(all[0], started(50));
    assert_eq!(all[99], started(149));
    let e = ClusterEvent::JobFinished { job_id: "x".into(), success: true };
    assert_eq!(e.duplicate(), e);
}
