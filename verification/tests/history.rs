use contact_core::buffer::{Buffers, DetectionMsg, LONGTERM_SIZE, MAX_EVENTS};

/// Insert `count` copies of `sample` without running detection, as the raw
/// acquisition baseline of the flatline scenario.
fn flatline(buffers: &mut Buffers, sample: u8, count: usize) {
    for _ in 0..count {
        let overflow = buffers.insert(sample);
        assert!(!overflow);
    }
}

#[test]
fn insert_places_sample_after_head() {
    let mut b = Buffers::init();
    assert!(!b.insert(42));
    // The first insertion lands at ring index 1 and the head counts it.
    assert_eq!(b.amplitude_at(1), 42);
    assert_eq!(b.current_wrapped().get_counter(), 1);
    assert_eq!(b.detection_idx(), 0);
}

#[test]
fn insert_wraps_ring_index() {
    let mut b = Buffers::init();
    flatline(&mut b, 7, LONGTERM_SIZE);
    // The next insertion writes ring index 1 again.
    assert!(!b.insert(9));
    assert_eq!(b.amplitude_at(1), 9);
    assert_eq!(b.amplitude_at(2), 7);
    assert_eq!(b.current_wrapped().get_counter(), 1);
}

#[test]
fn s1_flatline_no_events() {
    let mut b = Buffers::init();
    flatline(&mut b, 128, 1000);
    assert_eq!(b.event_count(), 0);
    assert!(b.latest_event().is_none());
    assert!(!b.awaiting_confirmation());
}

#[test]
fn s2_single_spike_no_contact() {
    let mut b = Buffers::init();
    flatline(&mut b, 128, 1000);
    assert!(!b.insert(100));
    assert!(!b.detect_contact());
    assert!(b.awaiting_confirmation());
    assert!(!b.insert(128));
    // Validation compares the sample two back (128) with the newest (128):
    // no contact.
    assert!(!b.detect_contact());
    assert!(!b.awaiting_confirmation());
    assert_eq!(b.event_count(), 0);
}

#[test]
fn s3_sustained_contact_detected() {
    let mut b = Buffers::init();
    flatline(&mut b, 128, 1000);
    assert!(!b.insert(100));
    assert!(!b.detect_contact());
    assert!(b.awaiting_confirmation());
    assert!(!b.insert(99));
    // Validation: |128 - 99| >= 1 confirms the contact.
    assert!(b.detect_contact());
    assert!(!b.awaiting_confirmation());
    assert_eq!(b.event_count(), 1);
    let event = b.latest_event().unwrap();
    assert_eq!(event.0.get_counter(), 1002);
    assert_eq!(event.1, 99);
    let msg = DetectionMsg::create(&b).message();
    assert_eq!(
        msg,
        "contact detected on sample 1001! Adding to detection events"
    );
}

/// Run the sustained-contact prefix: 1000 flatline samples, then the two
/// step samples that confirm a contact at amplitude 99.
fn sustained_contact() -> Buffers {
    let mut b = Buffers::init();
    flatline(&mut b, 128, 1000);
    b.insert(100);
    b.detect_contact();
    b.insert(99);
    assert!(b.detect_contact());
    b
}

#[test]
fn s4_forced_clear_after_min_alert_samples() {
    let mut b = sustained_contact();
    // 149 further flat samples at the contact level never clear...
    for _ in 0..149 {
        assert!(!b.insert(99));
        assert!(!b.detect_end_contact());
    }
    // ...and the 150th forces the clear, resetting the latch.
    assert!(!b.insert(99));
    assert!(b.detect_end_contact());
    assert!(!b.awaiting_confirmation());
}

#[test]
fn s5_genuine_release_clears() {
    let mut b = sustained_contact();
    assert!(!b.insert(101));
    // |101 - 99| >= 2 arms the clear check.
    assert!(!b.detect_end_contact());
    assert!(b.awaiting_confirmation());
    assert!(!b.insert(110));
    // |110 - 99| >= 1 validates the clear.
    assert!(b.detect_end_contact());
    assert!(!b.awaiting_confirmation());
}

#[test]
fn end_contact_without_events_reports_nothing() {
    let mut b = Buffers::init();
    flatline(&mut b, 128, 10);
    assert!(!b.detect_end_contact());
    assert!(!b.awaiting_confirmation());
}

#[test]
fn no_single_sample_contact() {
    // However large the step, a single sample never confirms a contact.
    let mut b = Buffers::init();
    flatline(&mut b, 128, 100);
    assert!(!b.insert(0));
    assert!(!b.detect_contact());
    let mut b = Buffers::init();
    flatline(&mut b, 0, 100);
    assert!(!b.insert(255));
    assert!(!b.detect_contact());
}

#[test]
fn event_list_caps_at_ten_most_recent_first() {
    let mut b = Buffers::init();
    // Alternating pairs confirm one contact every two samples.
    let mut last_counter = 0;
    for round in 0..15 {
        let level = if round % 2 == 0 { 100 } else { 0 };
        assert!(!b.insert(level));
        assert!(!b.detect_contact());
        assert!(b.awaiting_confirmation());
        assert!(!b.insert(level));
        assert!(b.detect_contact());
        let event = b.latest_event().unwrap();
        // The newest event always carries the head counter at detection.
        assert!(event.0.get_counter() > last_counter);
        last_counter = event.0.get_counter();
        assert_eq!(event.1, level);
    }
    assert_eq!(b.event_count(), MAX_EVENTS);
    assert_eq!(last_counter, 30);
}

#[test]
fn ring_size_fits_whole_trace_windows() {
    assert_eq!(LONGTERM_SIZE % 250, 0);
}

#[test]
fn step_below_trigger_does_not_arm() {
    let mut b = Buffers::init();
    flatline(&mut b, 128, 100);
    // A step of 1 stays below the trigger threshold of 2.
    assert!(!b.insert(127));
    assert!(!b.detect_contact());
    assert!(!b.awaiting_confirmation());
}

#[test]
fn recovery_below_restore_does_not_arm() {
    let mut b = sustained_contact();
    // A recovery of 1 against the detection amplitude 99 stays below the
    // restore threshold of 2.
    assert!(!b.insert(100));
    assert!(!b.detect_end_contact());
    assert!(!b.awaiting_confirmation());
}

#[test]
fn detection_message_single_digit() {
    let mut b = Buffers::init();
    b.insert(5);
    let msg = DetectionMsg::create(&b).message();
    assert_eq!(msg, "contact detected on sample 0! Adding to detection events");
}

#[test]
fn detection_message_round_number() {
    let mut b = Buffers::init();
    flatline(&mut b, 1, 10001);
    let msg = DetectionMsg::create(&b).message();
    assert_eq!(
        msg,
        "contact detected on sample 10000! Adding to detection events"
    );
}
