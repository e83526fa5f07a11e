use xtalk::bus::{handler_panic_event, Dispatch, EventBus, ERROR_EVENT_COOLDOWN};
use xtalk::events::{Event, EventMeta};

fn meta(now: u64) -> EventMeta {
    EventMeta::new("s".into(), now)
}

#[test]
fn handlers_run_by_priority_descending() {
    let mut bus = EventBus::new();
    let mut labels = std::collections::HashMap::new();
    for (prio, label) in [(1, "low"), (10, "high"), (5, "mid")] {
        let id = bus.subscribe("vad.speech_start", prio);
        labels.insert(id, label);
    }
    let ev = Event::VadSpeechStart { meta: meta(10), origin: "client".into() };
    let order: Vec<&str> = bus.publish(&ev, 10).unwrap().iter().map(|id| labels[id]).collect();
    bus.end_publish(&ev);
    assert_eq!(order, vec!["high", "mid", "low"]);
}

#[test]
fn equal_priorities_run_in_subscription_order() {
    let mut bus = EventBus::new();
    let a = bus.subscribe("tts.started", 5);
    let b = bus.subscribe("tts.started", 7);
    let c = bus.subscribe("tts.started", 5);
    let d = bus.subscribe("tts.stopped", 100);
    let ev = Event::TtsStarted { meta: meta(0) };
    assert_eq!(bus.publish(&ev, 0).unwrap(), vec![b, a, c]);
    assert!(!bus.handlers_for("tts.started").contains(&d));
}

#[test]
fn handler_error_does_not_poison_bus() {
    let mut bus = EventBus::new();
    let _error_handler = bus.subscribe("error.occurred", 0);
    let hit = bus.subscribe("vad.speech_end", 0);
    let prior = Event::ErrorOccurred { meta: meta(5_000_000), error_message: "prior failure".into() };
    assert!(bus.publish(&prior, 5_000_000).is_some());
    bus.end_publish(&prior);
    let ev = Event::VadSpeechEnd { meta: meta(5_000_001), origin: "client".into() };
    assert_eq!(bus.publish(&ev, 5_000_001).unwrap(), vec![hit]);
}

#[test]
fn error_occurred_dropped_during_cooldown() {
    let mut bus = EventBus::new();
    let _h = bus.subscribe("error.occurred", 0);
    let now = 10_000_000;
    let mut count = 0usize;
    for i in 0..5 {
        let ev = Event::ErrorOccurred { meta: meta(now), error_message: format!("err-{i}") };
        if bus.publish(&ev, now).is_some() {
            count += 1;
            bus.end_publish(&ev);
        }
    }
    // Cooldown is one second: only the first error.occurred should be dispatched.
    assert_eq!(count, 1);
}

#[test]
fn error_accepted_again_after_cooldown() {
    let mut bus = EventBus::new();
    let t0 = 3_000_000;
    let ev = Event::ErrorOccurred { meta: meta(t0), error_message: "a".into() };
    assert!(bus.publish(&ev, t0).is_some());
    bus.end_publish(&ev);
    assert!(bus.publish(&ev, t0 + ERROR_EVENT_COOLDOWN - 1).is_none());
    assert!(bus.publish(&ev, t0 + ERROR_EVENT_COOLDOWN).is_some());
    bus.end_publish(&ev);
}

#[test]
fn nested_error_depth_is_limited() {
    let mut bus = EventBus::new();
    let ev = Event::ErrorOccurred { meta: meta(0), error_message: "x".into() };
    // Nested publishes spaced past the cooldown, none finished.
    let mut t = 2_000_000u64;
    let mut accepted = 0;
    for _ in 0..5 {
        if bus.publish(&ev, t).is_some() {
            accepted += 1;
        }
        t += ERROR_EVENT_COOLDOWN;
    }
    assert_eq!(accepted, 3);
    assert_eq!(bus.errors.depth, 3);
    bus.end_publish(&ev);
    assert_eq!(bus.errors.depth, 2);
}

#[test]
fn panicking_handler_reports_error_once() {
    let ev = Event::VadSpeechStart { meta: EventMeta::new("sx".into(), 1), origin: "client".into() };
    match handler_panic_event(&ev, 7) {
        Some(Event::ErrorOccurred { meta, error_message }) => {
            assert_eq!(meta.session_id, "sx");
            assert_eq!(meta.timestamp, 7);
            assert_eq!(error_message, "event_handler_panic");
        }
        other => panic!("{other:?}"),
    }
    let err = Event::ErrorOccurred { meta: meta(1), error_message: "e".into() };
    assert!(handler_panic_event(&err, 7).is_none());
}

#[test]
fn service_registers_managers_and_shutdown_clears_bus() {
    let mut bus = EventBus::new();
    let flag = bus.subscribe("vad.speech_start", 0);
    let ev = Event::VadSpeechStart { meta: EventMeta::new("session-1".into(), 0), origin: "client".into() };
    assert_eq!(bus.publish(&ev, 0).unwrap(), vec![flag]);
    bus.end_publish(&ev);
    bus.shutdown();
    assert!(bus.publish(&ev, 0).unwrap().is_empty());
}

#[test]
fn dispatch_hands_out_each_handler_once_even_after_a_panic() {
    let mut d = Dispatch::new(vec![4, 2, 9]);
    let ev = Event::VadSpeechEnd { meta: EventMeta::new("s7".into(), 0), origin: "client".into() };
    assert_eq!(d.next_handler(), Some(4));
    match Dispatch::after_handler(&ev, true, 5) {
        Some(Event::ErrorOccurred { meta, error_message }) => {
            assert_eq!(error_message, "event_handler_panic");
            assert_eq!(meta.session_id, "s7");
            assert_eq!(meta.timestamp, 5);
        }
        other => panic!("{other:?}"),
    }
    assert_eq!(d.next_handler(), Some(2));
    assert!(Dispatch::after_handler(&ev, false, 5).is_none());
    assert_eq!(d.next_handler(), Some(9));
    assert_eq!(d.next_handler(), None);
    assert_eq!(d.next_handler(), None);
    let err = Event::ErrorOccurred { meta: EventMeta::new("s7".into(), 0), error_message: "x".into() };
    assert!(Dispatch::after_handler(&err, true, 5).is_none());
}
