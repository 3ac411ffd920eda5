use actor_runtime::busy_detector::{
    emit_warn, set_enabled, thread_park, thread_unpark, BusyDetector, BusyWarning, ThreadClock,
    ALLOWED_DELAY_MICROS, WARN_SUPPRESSION_MICROS,
};

#[test]
fn a_detector_that_is_off_never_warns() {
    let mut detector = BusyDetector::new();
    let mut thread = ThreadClock::new();
    thread_unpark(&mut thread, 10);
    assert_eq!(thread_park(&mut detector, &thread, 10_000_000), None);
    assert_eq!(detector, BusyDetector::new());
}

#[test]
fn a_late_park_warns_once_and_then_counts() {
    let mut detector = BusyDetector::new();
    set_enabled(&mut detector, true);
    let mut thread = ThreadClock::new();
    thread_unpark(&mut thread, 1_000);
    assert_eq!(thread_park(&mut detector, &thread, 1_000 + ALLOWED_DELAY_MICROS), None);
    assert_eq!(
        thread_park(&mut detector, &thread, 1_001 + ALLOWED_DELAY_MICROS),
        Some(BusyWarning {
            delta: ALLOWED_DELAY_MICROS + 1,
            suppressed: 0
        })
    );
    assert_eq!(
        detector.next_warn_timestamp,
        1_001 + ALLOWED_DELAY_MICROS + WARN_SUPPRESSION_MICROS
    );
    thread_unpark(&mut thread, 10_000);
    assert_eq!(thread_park(&mut detector, &thread, 20_000), None);
    assert_eq!(thread_park(&mut detector, &thread, 30_000), None);
    assert_eq!(detector.suppressed_warn_count, 2);
    thread_unpark(&mut thread, 40_000_000);
    assert_eq!(
        thread_park(&mut detector, &thread, 40_100_000),
        Some(BusyWarning {
            delta: 100_000,
            suppressed: 2
        })
    );
    assert_eq!(detector.suppressed_warn_count, 0);
}

#[test]
fn emit_warn_edges() {
    let mut detector = BusyDetector::new();
    assert_eq!(emit_warn(&mut detector, 6_000, 0), None);
    assert_eq!(detector.suppressed_warn_count, 1);
    assert_eq!(
        emit_warn(&mut detector, 6_000, u64::MAX),
        Some(BusyWarning {
            delta: 6_000,
            suppressed: 1
        })
    );
    assert_eq!(detector.next_warn_timestamp, u64::MAX);
    detector.suppressed_warn_count = u64::MAX;
    assert_eq!(emit_warn(&mut detector, 6_000, u64::MAX), None);
    assert_eq!(detector.suppressed_warn_count, 0);
}

#[test]
fn a_clock_that_runs_backwards_does_not_warn() {
    let mut detector = BusyDetector::new();
    set_enabled(&mut detector, true);
    let mut thread = ThreadClock::new();
    thread_unpark(&mut thread, 1_000_000);
    assert_eq!(thread_park(&mut detector, &thread, 10), None);
}
