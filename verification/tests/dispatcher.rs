use ion_sense::dispatcher::{DispatchError, EventDispatcher, SUPPRESSION_CACHE_LIMIT, SUPPRESS_WINDOW_NS};
use ion_sense::event::{IonSenseEvent, IonSenseEventType, Severity};
use ion_sense::text::normalize_template;

fn event(event_type: IonSenseEventType, message: &str) -> IonSenseEvent {
    IonSenseEvent {
        event_type,
        message: message.into(),
        severity: Severity::Info,
        timestamp: 0,
    }
}

#[test]
fn pending_tracks_accepted_events_until_completion() {
    let (mut dispatcher, mut receiver) = EventDispatcher::channel(1);
    assert_eq!(dispatcher.pending(), 0);
    dispatcher
        .try_dispatch(event(IonSenseEventType::BatteryLow, "one"))
        .unwrap();
    assert_eq!(dispatcher.pending(), 1);
    assert!(dispatcher
        .try_dispatch(event(IonSenseEventType::BatteryLow, "two"))
        .is_err());
    assert_eq!(dispatcher.pending(), 1);
    assert!(receiver.try_recv().is_ok());
    dispatcher.complete_one();
    assert_eq!(dispatcher.pending(), 0);
}

#[test]
fn suppresses_identical_events_within_the_cooldown() {
    let (mut dispatcher, _receiver) = EventDispatcher::channel(8);
    let now = 1_000_000;
    let duplicate = event(IonSenseEventType::FriendMessage, "Nadia: ready?");
    assert!(dispatcher.accept_event(&duplicate, now));
    assert!(!dispatcher.accept_event(&duplicate, now + 1_000_000_000));
    assert!(!dispatcher.accept_event(&duplicate, now + SUPPRESS_WINDOW_NS - 1_000_000_000));
}

#[test]
fn admits_identical_events_after_the_cooldown() {
    let (mut dispatcher, _receiver) = EventDispatcher::channel(8);
    let now = 1_000_000;
    let duplicate = event(IonSenseEventType::FriendMessage, "Nadia: ready?");
    assert!(dispatcher.accept_event(&duplicate, now));
    assert!(dispatcher.accept_event(&duplicate, now + SUPPRESS_WINDOW_NS));
}

#[test]
fn admits_different_event_types_with_equal_messages() {
    let (mut dispatcher, _receiver) = EventDispatcher::channel(8);
    let now = 1_000_000;
    let message = "Something finished.";
    assert!(dispatcher.accept_event(&event(IonSenseEventType::DownloadFinished, message), now));
    assert!(dispatcher.accept_event(&event(IonSenseEventType::NewEmail, message), now));
}

#[test]
fn distinguishes_meaningfully_different_content() {
    let (mut dispatcher, _receiver) = EventDispatcher::channel(8);
    let now = 1_000_000;
    assert!(dispatcher.accept_event(&event(IonSenseEventType::FriendMessage, "Nadia: ok"), now));
    assert!(dispatcher.accept_event(&event(IonSenseEventType::FriendMessage, "Tarek: ok"), now));
    assert!(dispatcher.accept_event(&event(IonSenseEventType::NewEmail, "A: Invoice"), now));
    assert!(dispatcher.accept_event(&event(IonSenseEventType::NewEmail, "A: Receipt"), now));
}

#[test]
fn collapses_system_conditions_that_differ_only_in_readings() {
    let (mut dispatcher, _receiver) = EventDispatcher::channel(8);
    let now = 1_000_000;
    assert!(dispatcher.accept_event(&event(IonSenseEventType::BatteryLow, "Battery at 12%."), now));
    assert!(!dispatcher.accept_event(&event(IonSenseEventType::BatteryLow, "Battery at 9%."), now));
    assert!(dispatcher.accept_event(
        &event(IonSenseEventType::Overheating, "CPU package reached 94°C."),
        now
    ));
    assert!(!dispatcher.accept_event(
        &event(IonSenseEventType::Overheating, "CPU package reached 101°C."),
        now
    ));
    // Different sensors are genuinely different conditions and stay separate.
    assert!(dispatcher.accept_event(&event(IonSenseEventType::Overheating, "GPU reached 101°C."), now));
}

#[test]
fn suppressed_events_do_not_enter_the_queue_or_pending_count() {
    let (mut dispatcher, mut receiver) = EventDispatcher::channel(8);
    dispatcher
        .try_dispatch(event(IonSenseEventType::FriendMessage, "Nadia: once"))
        .unwrap();
    dispatcher
        .try_dispatch(event(IonSenseEventType::FriendMessage, "Nadia: once"))
        .unwrap();
    assert_eq!(dispatcher.pending(), 1);
    assert!(receiver.try_recv().is_ok());
    assert!(receiver.try_recv().is_err());
}

#[test]
fn suppression_state_stays_bounded_across_many_conditions() {
    let (mut dispatcher, _receiver) = EventDispatcher::channel(1);
    let mut now = 1_000_000;
    for index in 0..(SUPPRESSION_CACHE_LIMIT * 4) {
        let message = format!("Battery at {index}%.");
        assert!(dispatcher.accept_event(&event(IonSenseEventType::BatteryLow, &message), now));
        now += SUPPRESS_WINDOW_NS + 1_000_000_000;
    }
    assert!(dispatcher.remembered_len() <= SUPPRESSION_CACHE_LIMIT);
}

#[test]
fn digit_runs_collapse_into_a_single_placeholder() {
    assert_eq!(normalize_template("Battery at 12%."), "Battery at #%.");
    assert_eq!(normalize_template("CPU 94°C, GPU 101°C"), "CPU #°C, GPU #°C");
    assert_eq!(normalize_template("no digits"), "no digits");
}

#[test]
fn distinct_content_keys_fill_the_cache_and_then_start_over() {
    let (mut dispatcher, _receiver) = EventDispatcher::channel(1);
    let now = 5_000;
    for index in 0..SUPPRESSION_CACHE_LIMIT {
        let message = format!("sender {index}");
        assert!(dispatcher.accept_event(&event(IonSenseEventType::NewEmail, &message), now));
    }
    assert_eq!(dispatcher.remembered_len(), SUPPRESSION_CACHE_LIMIT);
    assert!(dispatcher.accept_event(&event(IonSenseEventType::NewEmail, "one more"), now));
    assert_eq!(dispatcher.remembered_len(), 1);
    // The forgotten keys are admitted again.
    assert!(dispatcher.accept_event(&event(IonSenseEventType::NewEmail, "sender 0"), now));
}

#[test]
fn an_event_from_the_future_counts_as_fresh() {
    let (mut dispatcher, _receiver) = EventDispatcher::channel(4);
    let duplicate = event(IonSenseEventType::PackageDelivered, "Parcel");
    assert!(dispatcher.accept_event(&duplicate, 100_000));
    assert!(!dispatcher.accept_event(&duplicate, 10));
}

#[test]
fn zero_capacity_is_raised_to_one() {
    let (mut dispatcher, mut receiver) = EventDispatcher::channel(0);
    assert!(dispatcher.try_dispatch_at(event(IonSenseEventType::NewEmail, "a"), 0).is_ok());
    assert_eq!(
        dispatcher.try_dispatch_at(event(IonSenseEventType::NewEmail, "b"), 0),
        Err(DispatchError::QueueFull)
    );
    assert!(receiver.try_recv().is_ok());
}

#[test]
fn a_closed_queue_reports_closed_and_keeps_the_count() {
    let (mut dispatcher, receiver) = EventDispatcher::channel(4);
    drop(receiver);
    assert_eq!(
        dispatcher.try_dispatch_at(event(IonSenseEventType::NewEmail, "x"), 0),
        Err(DispatchError::QueueClosed)
    );
    assert_eq!(dispatcher.pending(), 0);
}

#[test]
fn completing_with_nothing_pending_keeps_zero() {
    let (mut dispatcher, _receiver) = EventDispatcher::channel(4);
    dispatcher.complete_one();
    assert_eq!(dispatcher.pending(), 0);
    dispatcher.begin_direct_delivery();
    assert_eq!(dispatcher.pending(), 1);
    dispatcher.abandon_direct_delivery();
    assert_eq!(dispatcher.pending(), 0);
}

#[test]
fn queued_events_arrive_unchanged_through_the_queue() {
    let (mut dispatcher, mut receiver) = EventDispatcher::channel(4);
    let sent = IonSenseEvent::new(IonSenseEventType::Overheating, "GPU reached 90°C.".into(), Severity::Critical);
    dispatcher.try_dispatch(sent.clone()).unwrap();
    let got = receiver.try_recv().unwrap();
    assert_eq!(got.message, "GPU reached 90°C.");
    assert_eq!(got.event_type, IonSenseEventType::Overheating);
    assert_eq!(got.timestamp, sent.timestamp);
}

#[test]
fn queue_capacity_is_raised_to_one_and_kept_otherwise() {
    let (dispatcher, _receiver) = EventDispatcher::channel(0);
    assert_eq!(dispatcher.queue_sender().max_capacity(), 1);
    let (dispatcher, _receiver) = EventDispatcher::channel(7);
    assert_eq!(dispatcher.queue_sender().max_capacity(), 7);
}
