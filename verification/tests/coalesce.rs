use sher_input::{
    Coalescer, InputDeviceId, InputEvent, InputEventPayload, InputSource, KeyAction, KeyboardEvent, LogicalKey,
    Modifiers, PhysicalKey, PointerButton, PointerEvent, ScrollAxis, SequenceNumber, SyntheticOrigin, Timestamp,
};

fn base(device_id: InputDeviceId, seq: u64, payload: InputEventPayload) -> InputEvent {
    InputEvent {
        timestamp: Timestamp(seq),
        sequence: SequenceNumber(seq),
        device_id,
        source: InputSource::Physical,
        modifiers: Modifiers::default(),
        payload,
    }
}

fn motion(device_id: InputDeviceId, seq: u64, dx: i64, dy: i64) -> InputEvent {
    base(device_id, seq, InputEventPayload::Pointer(PointerEvent::MotionRelative { dx, dy }))
}

fn button(device_id: InputDeviceId, seq: u64, pressed: bool) -> InputEvent {
    base(
        device_id,
        seq,
        InputEventPayload::Pointer(PointerEvent::Button { button: PointerButton::Left, pressed }),
    )
}

fn key(device_id: InputDeviceId, seq: u64) -> InputEvent {
    base(
        device_id,
        seq,
        InputEventPayload::Keyboard(KeyboardEvent {
            physical_key: PhysicalKey::KeyA,
            logical_key: LogicalKey::Character('a'),
            text: Some("a".to_string()),
            action: KeyAction::Down,
        }),
    )
}

fn scroll(device_id: InputDeviceId, seq: u64, delta: i64) -> InputEvent {
    base(
        device_id,
        seq,
        InputEventPayload::Pointer(PointerEvent::Scroll { axis: ScrollAxis::Vertical, delta, high_resolution: false }),
    )
}

#[test]
fn consecutive_motion_is_merged_not_emitted() {
    let mut c = Coalescer::new();
    let device_id = InputDeviceId::new();

    assert!(c.offer(motion(device_id, 0, 1, 1)).is_empty());
    assert!(c.offer(motion(device_id, 1, 2, 2)).is_empty());

    let flushed = c.drain_device(device_id);
    assert_eq!(flushed.len(), 1);
    match &flushed[0].payload {
        InputEventPayload::Pointer(PointerEvent::MotionRelative { dx, dy }) => {
            assert_eq!(*dx, 3);
            assert_eq!(*dy, 3);
        }
        other => panic!("unexpected payload: {other:?}"),
    }
}

#[test]
fn button_events_are_never_coalesced() {
    let mut c = Coalescer::new();
    let device_id = InputDeviceId::new();

    let first = c.offer(button(device_id, 0, true));
    let second = c.offer(button(device_id, 1, false));

    assert_eq!(first.len(), 1);
    assert_eq!(second.len(), 1);
}

#[test]
fn key_events_are_never_coalesced() {
    let mut c = Coalescer::new();
    let device_id = InputDeviceId::new();

    assert_eq!(c.offer(key(device_id, 0)).len(), 1);
    assert_eq!(c.offer(key(device_id, 1)).len(), 1);
}

#[test]
fn pending_motion_flushes_before_a_later_button_event() {
    let mut c = Coalescer::new();
    let device_id = InputDeviceId::new();

    assert!(c.offer(motion(device_id, 0, 5, 0)).is_empty());
    let delivered = c.offer(button(device_id, 1, true));

    assert_eq!(delivered.len(), 2);
    assert!(matches!(delivered[0].payload, InputEventPayload::Pointer(PointerEvent::MotionRelative { .. })));
    assert!(matches!(delivered[1].payload, InputEventPayload::Pointer(PointerEvent::Button { .. })));
}

#[test]
fn different_devices_do_not_coalesce_together() {
    let mut c = Coalescer::new();
    let a = InputDeviceId::new();
    let b = InputDeviceId::new();

    c.offer(motion(a, 0, 1, 0));
    c.offer(motion(b, 1, 1, 0));

    assert_eq!(c.drain_device(a).len(), 1);
    assert_eq!(c.drain_device(b).len(), 1);
}

#[test]
fn merged_motion_takes_the_latest_stamp_and_sums_deltas() {
    let mut c = Coalescer::new();
    let d = InputDeviceId(7);
    assert!(c.offer(motion(d, 3, 4, -2)).is_empty());
    assert!(c.offer(motion(d, 4, -1, 10)).is_empty());
    assert!(c.offer(motion(d, 5, 2, 2)).is_empty());
    let out = c.drain_all();
    assert_eq!(out, vec![motion(d, 5, 5, 10)]);
}

#[test]
fn merged_motion_saturates_instead_of_overflowing() {
    let mut c = Coalescer::new();
    let d = InputDeviceId(1);
    c.offer(motion(d, 0, i64::MAX - 1, i64::MIN + 1));
    c.offer(motion(d, 1, 5, -5));
    let out = c.drain_device(d);
    assert_eq!(out, vec![motion(d, 1, i64::MAX, i64::MIN)]);
}

#[test]
fn scroll_on_the_same_axis_accumulates_in_its_own_slot() {
    let mut c = Coalescer::new();
    let d = InputDeviceId(2);
    assert!(c.offer(scroll(d, 0, 120)).is_empty());
    assert!(c.offer(motion(d, 1, 1, 1)).is_empty());
    assert!(c.offer(scroll(d, 2, 240)).is_empty());
    let out = c.drain_device(d);
    assert_eq!(out, vec![motion(d, 1, 1, 1), scroll(d, 2, 360)]);
}

#[test]
fn drain_all_delivers_every_device_in_sequence_order() {
    let mut c = Coalescer::new();
    let a = InputDeviceId(1);
    let b = InputDeviceId(2);
    c.offer(motion(b, 0, 1, 0));
    c.offer(motion(a, 1, 0, 1));
    c.offer(scroll(b, 2, 120));
    let out = c.drain_all();
    assert_eq!(out, vec![motion(b, 0, 1, 0), motion(a, 1, 0, 1), scroll(b, 2, 120)]);
    assert!(c.drain_all().is_empty());
}

#[test]
fn a_transition_event_only_flushes_its_own_device() {
    let mut c = Coalescer::new();
    let a = InputDeviceId(1);
    let b = InputDeviceId(2);
    c.offer(motion(a, 0, 1, 0));
    c.offer(motion(b, 1, 2, 0));
    let out = c.offer(key(a, 2));
    assert_eq!(out, vec![motion(a, 0, 1, 0), key(a, 2)]);
    assert_eq!(c.drain_all(), vec![motion(b, 1, 2, 0)]);
}

#[test]
fn physical_and_synthetic_samples_never_merge() {
    let mut c = Coalescer::new();
    let d = InputDeviceId(3);
    assert!(c.offer(motion(d, 0, 1, 0)).is_empty());
    let mut synthetic = motion(d, 1, 100, 0);
    synthetic.source = InputSource::Synthetic(SyntheticOrigin::AiAgent);
    assert!(c.offer(synthetic.clone()).is_empty());
    let mut more_synthetic = motion(d, 2, 5, 5);
    more_synthetic.source = InputSource::Synthetic(SyntheticOrigin::AiAgent);
    c.offer(more_synthetic);
    let mut merged_synthetic = motion(d, 2, 105, 5);
    merged_synthetic.source = InputSource::Synthetic(SyntheticOrigin::AiAgent);
    assert_eq!(c.drain_all(), vec![motion(d, 0, 1, 0), merged_synthetic]);
}
