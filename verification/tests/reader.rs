use evdev::{EventType, Key as EvKey, RelativeAxisType, Synchronization};
use sher_input::linux::reader::{translate_batch, PendingMotion, RawEvent};
use sher_input::{BackendEvent, InputDeviceId, PhysicalKey, PointerButton, ScrollAxis};

fn raw(event_type: EventType, code: u16, value: i32) -> RawEvent {
    RawEvent { event_type: event_type.0, code, value }
}

#[test]
fn rel_x_and_rel_y_within_one_report_coalesce_into_one_motion_event() {
    let device_id = InputDeviceId::new();
    let batch = [
        raw(EventType::RELATIVE, RelativeAxisType::REL_X.0, 12),
        raw(EventType::RELATIVE, RelativeAxisType::REL_Y.0, -4),
        raw(EventType::SYNCHRONIZATION, Synchronization::SYN_REPORT.0, 0),
    ];

    let events = translate_batch(device_id, &batch);

    assert_eq!(events.len(), 1);
    match &events[0] {
        BackendEvent::MotionRelative { dx, dy, .. } => {
            assert_eq!(*dx, 12);
            assert_eq!(*dy, -4);
        }
        other => panic!("expected MotionRelative, got {other:?}"),
    }
}

#[test]
fn motion_across_multiple_syn_terminated_reports_in_one_batch_accumulates() {
    let device_id = InputDeviceId::new();
    let syn = raw(EventType::SYNCHRONIZATION, Synchronization::SYN_REPORT.0, 0);
    let batch = [
        raw(EventType::RELATIVE, RelativeAxisType::REL_X.0, 1),
        syn,
        raw(EventType::RELATIVE, RelativeAxisType::REL_X.0, 2),
        syn,
    ];

    let events = translate_batch(device_id, &batch);

    assert_eq!(events.len(), 2, "each SYN_REPORT flushes its own sample");
    for event in &events {
        assert!(matches!(event, BackendEvent::MotionRelative { .. }));
    }
}

#[test]
fn motion_is_flushed_before_a_button_event_in_the_same_unsynced_batch() {
    let device_id = InputDeviceId::new();
    let batch = [
        raw(EventType::RELATIVE, RelativeAxisType::REL_X.0, 5),
        raw(EventType::KEY, EvKey::BTN_LEFT.code(), 1),
    ];

    let events = translate_batch(device_id, &batch);

    assert_eq!(events.len(), 2);
    assert!(
        matches!(events[0], BackendEvent::MotionRelative { .. }),
        "motion must be observed before the button that followed it, got {:?}",
        events[0]
    );
    assert!(matches!(events[1], BackendEvent::PointerButton { button: PointerButton::Left, pressed: true, .. }));
}

#[test]
fn motion_is_flushed_before_a_scroll_event_in_the_same_unsynced_batch() {
    let device_id = InputDeviceId::new();
    let batch = [
        raw(EventType::RELATIVE, RelativeAxisType::REL_Y.0, 3),
        raw(EventType::RELATIVE, RelativeAxisType::REL_WHEEL.0, 1),
    ];

    let events = translate_batch(device_id, &batch);

    assert_eq!(events.len(), 2);
    assert!(matches!(events[0], BackendEvent::MotionRelative { .. }));
    assert!(matches!(events[1], BackendEvent::Scroll { .. }));
}

#[test]
fn trailing_motion_without_a_final_syn_report_still_flushes() {
    let device_id = InputDeviceId::new();
    let batch = [raw(EventType::RELATIVE, RelativeAxisType::REL_X.0, 7)];

    let events = translate_batch(device_id, &batch);

    assert_eq!(events.len(), 1);
    assert!(matches!(events[0], BackendEvent::MotionRelative { dx, .. } if dx == 7));
}

#[test]
fn a_letter_key_is_translated_as_a_key_event_not_a_pointer_button() {
    let device_id = InputDeviceId::new();
    let batch = [raw(EventType::KEY, EvKey::KEY_A.code(), 1)];

    let events = translate_batch(device_id, &batch);

    assert_eq!(events.len(), 1);
    assert!(matches!(events[0], BackendEvent::Key { physical_key: PhysicalKey::KeyA, pressed: true, .. }));
}

/// Scroll deltas count 1/120 notches, so a 120-unit high-resolution report is one
/// notch.
#[test]
fn high_resolution_scroll_is_scaled_down_by_120() {
    let device_id = InputDeviceId::new();
    let batch = [raw(EventType::RELATIVE, RelativeAxisType::REL_WHEEL_HI_RES.0, 120)];

    let events = translate_batch(device_id, &batch);

    assert_eq!(events.len(), 1);
    match &events[0] {
        BackendEvent::Scroll { delta, high_resolution, .. } => {
            assert_eq!(*delta as f64 / sher_input::pointer::SCROLL_UNITS_PER_NOTCH as f64, 1.0);
            assert!(*high_resolution);
        }
        other => panic!("expected Scroll, got {other:?}"),
    }
}

#[test]
fn a_classic_wheel_notch_is_one_hundred_twenty_units() {
    let d = InputDeviceId(9);
    let batch = [
        raw(EventType::RELATIVE, RelativeAxisType::REL_WHEEL.0, -2),
        raw(EventType::RELATIVE, RelativeAxisType::REL_HWHEEL.0, 1),
        raw(EventType::RELATIVE, RelativeAxisType::REL_HWHEEL_HI_RES.0, 30),
    ];
    assert_eq!(
        translate_batch(d, &batch),
        vec![
            BackendEvent::Scroll { device_id: d, axis: ScrollAxis::Vertical, delta: -240, high_resolution: false },
            BackendEvent::Scroll { device_id: d, axis: ScrollAxis::Horizontal, delta: 120, high_resolution: false },
            BackendEvent::Scroll { device_id: d, axis: ScrollAxis::Horizontal, delta: 30, high_resolution: true },
        ]
    );
}

#[test]
fn key_release_and_unknown_codes_decode_exactly() {
    let d = InputDeviceId(4);
    let batch = [
        raw(EventType::KEY, EvKey::KEY_KATAKANA.code(), 0),
        raw(EventType::KEY, EvKey::BTN_RIGHT.code(), 0),
        raw(EventType::ABSOLUTE, 0, 500),
        raw(EventType::RELATIVE, RelativeAxisType::REL_DIAL.0, 3),
    ];
    assert_eq!(
        translate_batch(d, &batch),
        vec![
            BackendEvent::Key {
                device_id: d,
                physical_key: PhysicalKey::Other(EvKey::KEY_KATAKANA.code() as u32),
                pressed: false,
            },
            BackendEvent::PointerButton { device_id: d, button: PointerButton::Right, pressed: false },
        ]
    );
}

#[test]
fn relative_motion_accumulates_until_reported_and_saturates() {
    let d = InputDeviceId(5);
    let batch = [
        raw(EventType::RELATIVE, RelativeAxisType::REL_X.0, 3),
        raw(EventType::RELATIVE, RelativeAxisType::REL_Y.0, 4),
        raw(EventType::RELATIVE, RelativeAxisType::REL_X.0, -10),
    ];
    assert_eq!(translate_batch(d, &batch), vec![BackendEvent::MotionRelative { device_id: d, dx: -7, dy: 4 }]);
    assert!(translate_batch(d, &[]).is_empty());
}

#[test]
fn flushing_pending_motion_reports_it_once() {
    let d = InputDeviceId(6);
    let mut m = PendingMotion { dx: 2, dy: -1, has_motion: true };
    let mut out = Vec::new();
    m.flush(d, &mut out);
    m.flush(d, &mut out);
    assert_eq!(out, vec![BackendEvent::MotionRelative { device_id: d, dx: 2, dy: -1 }]);
    assert_eq!(m, PendingMotion { dx: 0, dy: 0, has_motion: false });
}
