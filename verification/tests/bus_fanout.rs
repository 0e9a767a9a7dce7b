use murmer_server::bus::{Bus, Received, BUS_CAPACITY};

#[test]
fn frames_arrive_in_publish_order() {
    let mut bus = Bus::new();
    let mut sub = bus.subscribe();
    bus.publish("first".to_string());
    bus.publish("second".to_string());
    bus.publish("third".to_string());
    let mut seen = Vec::new();
    loop {
        match bus.receive(&mut sub) {
            Received::Event(e) => seen.push(e),
            Received::Lagged => panic!("should not lag"),
            Received::Empty => break,
        }
    }
    assert_eq!(seen, vec!["first".to_string(), "second".to_string(), "third".to_string()]);
}

#[test]
fn lagged_subscribers_skip_ahead_but_stay_ordered() {
    let mut bus = Bus::new();
    let mut sub = bus.subscribe();
    for i in 0..(BUS_CAPACITY + 5) {
        bus.publish(format!("event-{i}"));
    }
    match bus.receive(&mut sub) {
        Received::Lagged => {}
        _ => panic!("expected a lag"),
    }
    match bus.receive(&mut sub) {
        Received::Event(e) => assert_eq!(e, "event-5"),
        _ => panic!("expected the oldest buffered event"),
    }
    match bus.receive(&mut sub) {
        Received::Event(e) => assert_eq!(e, "event-6"),
        _ => panic!("expected the next event"),
    }
}

#[test]
fn subscribers_see_only_later_events() {
    let mut bus = Bus::new();
    bus.publish("before".to_string());
    let mut sub = bus.subscribe();
    assert!(matches!(bus.receive(&mut sub), Received::Empty));
    bus.publish("after".to_string());
    match bus.receive(&mut sub) {
        Received::Event(e) => assert_eq!(e, "after"),
        _ => panic!("expected the event published after subscribing"),
    }
}
