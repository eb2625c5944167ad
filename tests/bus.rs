use wcfrust::bus::{Delivery, EventLog, MsgEventBus, Subscription, BUS_CAPACITY};
use wcfrust::handlers::Event;

#[test]
fn fast_and_slow_subscribers() {
    let mut log: EventLog<u64> = EventLog::new(1000);
    let mut fast = log.subscribe();
    let mut slow = log.subscribe();
    let mut fast_seen = Vec::new();
    for e in 1..=1500u64 {
        log.publish(e);
        match log.poll(&mut fast) {
            Delivery::Event(seq) => fast_seen.push(*log.get(seq)),
            other => panic!("fast subscriber got {:?}", other),
        }
    }
    assert_eq!(fast_seen, (1..=1500).collect::<Vec<u64>>());
    let skipped = match log.poll(&mut slow) {
        Delivery::Lagged(n) => n,
        other => panic!("slow subscriber got {:?}", other),
    };
    assert!(skipped >= 500);
    assert_eq!(skipped, 500);
    let mut slow_seen = Vec::new();
    loop {
        match log.poll(&mut slow) {
            Delivery::Event(seq) => slow_seen.push(*log.get(seq)),
            Delivery::Empty => break,
            Delivery::Lagged(n) => panic!("lagged twice by {}", n),
            Delivery::Closed => panic!("the log was never closed"),
        }
    }
    assert_eq!(slow_seen, (501..=1500).collect::<Vec<u64>>());
}

#[test]
fn slow_subscriber_that_read_early_lags_less() {
    let mut log: EventLog<u64> = EventLog::new(1000);
    let mut slow = log.subscribe();
    log.publish(1);
    assert_eq!(log.poll(&mut slow), Delivery::Event(0));
    for e in 2..=1500u64 {
        log.publish(e);
    }
    assert_eq!(log.poll(&mut slow), Delivery::Lagged(499));
    assert_eq!(log.poll(&mut slow), Delivery::Event(500));
    assert_eq!(*log.get(500), 501);
}

#[test]
fn lag_reports_skipped_count_then_oldest() {
    let mut log: EventLog<&str> = EventLog::new(3);
    let mut sub = log.subscribe();
    for e in ["a", "b", "c", "d", "e"] {
        log.publish(e);
    }
    assert_eq!(log.poll(&mut sub), Delivery::Lagged(2));
    assert_eq!(sub, Subscription { next: 2 });
    assert_eq!(log.poll(&mut sub), Delivery::Event(2));
    assert_eq!(*log.get(2), "c");
}

#[test]
fn exactly_capacity_behind_does_not_lag() {
    let mut log: EventLog<u8> = EventLog::new(3);
    let mut sub = log.subscribe();
    for e in 0..3u8 {
        log.publish(e);
    }
    assert_eq!(log.poll(&mut sub), Delivery::Event(0));
}

#[test]
fn stalled_subscriber_blocks_nobody() {
    let mut log: EventLog<u32> = EventLog::new(2);
    let _stalled = log.subscribe();
    let mut other = log.subscribe();
    for e in 0..10u32 {
        log.publish(e);
        assert_eq!(log.poll(&mut other), Delivery::Event(e as u64));
        assert_eq!(*log.get(e as u64), e);
    }
    assert_eq!(log.head(), 10);
}

#[test]
fn empty_log_yields_nothing() {
    let log: EventLog<u8> = EventLog::new(1);
    let mut sub = log.subscribe();
    assert_eq!(log.poll(&mut sub), Delivery::Empty);
    assert_eq!(log.capacity(), 1);
}

#[test]
fn subscriber_sees_only_later_events() {
    let mut bus = MsgEventBus::new();
    bus.send_message(Event::StartUp);
    let mut sub = bus.subscribe();
    assert_eq!(sub.next, 1);
    bus.send_message(Event::Shutdown);
    assert_eq!(bus.log.poll(&mut sub), Delivery::Event(1));
    assert!(matches!(bus.log.get(1), Event::Shutdown));
    assert_eq!(bus.log.capacity(), BUS_CAPACITY);
}

#[test]
fn closed_log_drains_then_reports_closed() {
    let mut log: EventLog<u8> = EventLog::new(2);
    let mut sub = log.subscribe();
    for e in 0..3u8 {
        log.publish(e);
    }
    log.close();
    assert!(log.is_closed());
    assert_eq!(log.poll(&mut sub), Delivery::Lagged(1));
    assert_eq!(log.poll(&mut sub), Delivery::Event(1));
    assert_eq!(log.poll(&mut sub), Delivery::Event(2));
    assert_eq!(log.poll(&mut sub), Delivery::Closed);
    assert_eq!(log.poll(&mut sub), Delivery::Closed);
    log.close();
    assert!(log.is_closed());
}

#[test]
fn closed_bus_ends_consumers() {
    let mut bus = MsgEventBus::new();
    let mut sub = bus.subscribe();
    bus.send_message(Event::StartUp);
    bus.close();
    assert_eq!(bus.log.poll(&mut sub), Delivery::Event(0));
    assert_eq!(bus.log.poll(&mut sub), Delivery::Closed);
}
