use sher_input::{
    BackendEvent, BackendMetadata, CaptureKind, ConnectionState, ContactId, Error, InputConfig, InputDevice,
    InputDeviceCapabilities, InputDeviceClass, InputDeviceId, InputEvent, InputEventPayload, InputService, InputSource,
    KeyAction, LogicalKey, Modifiers, NormalizedPosition, PhysicalKey, PointerButton, PointerEvent,
    SyntheticInputGrant, SyntheticOrigin, Timestamp, TouchEvent, TouchPhase, UsQwertyLayout,
};

fn keyboard(id: InputDeviceId) -> InputDevice {
    InputDevice {
        id,
        name: "Test Keyboard".to_string(),
        vendor: None,
        product: None,
        class: InputDeviceClass::Keyboard,
        capabilities: InputDeviceCapabilities::keyboard(),
        connection_state: ConnectionState::Connected,
        physical_path: None,
        backend_metadata: BackendMetadata::default(),
    }
}

fn mouse(id: InputDeviceId) -> InputDevice {
    InputDevice {
        id,
        name: "Test Mouse".to_string(),
        vendor: None,
        product: None,
        class: InputDeviceClass::Pointer,
        capabilities: InputDeviceCapabilities::mouse(),
        connection_state: ConnectionState::Connected,
        physical_path: None,
        backend_metadata: BackendMetadata::default(),
    }
}

fn service() -> InputService<UsQwertyLayout> {
    InputService::new(InputConfig::default())
}

fn physical(service: &mut InputService<UsQwertyLayout>, event: BackendEvent) -> Vec<InputEvent> {
    service.ingest(event, InputSource::Physical)
}

fn key(device_id: InputDeviceId, physical_key: PhysicalKey, pressed: bool) -> BackendEvent {
    BackendEvent::Key { device_id, physical_key, pressed }
}

#[test]
fn hotplug_add_registers_device_and_emits_device_added() {
    let mut service = service();
    let id = InputDeviceId::new();

    let events = physical(&mut service, BackendEvent::DeviceAdded(keyboard(id)));

    assert!(matches!(events[0].payload, InputEventPayload::DeviceAdded(_)));
    assert_eq!(service.registry().len(), 1);
}

#[test]
fn key_press_then_release_produces_down_then_up_in_order() {
    let mut service = service();
    let id = InputDeviceId::new();

    let mut events = physical(&mut service, BackendEvent::DeviceAdded(keyboard(id)));
    events.extend(physical(&mut service, key(id, PhysicalKey::KeyA, true)));
    events.extend(physical(&mut service, key(id, PhysicalKey::KeyA, false)));

    assert!(matches!(events[0].payload, InputEventPayload::DeviceAdded(_)));
    let down = &events[1];
    let up = &events[2];
    match &down.payload {
        InputEventPayload::Keyboard(k) => assert_eq!(k.action, KeyAction::Down),
        other => panic!("expected keyboard down, got {other:?}"),
    }
    match &up.payload {
        InputEventPayload::Keyboard(k) => assert_eq!(k.action, KeyAction::Up),
        other => panic!("expected keyboard up, got {other:?}"),
    }
    assert!(down.sequence.0 < up.sequence.0);
}

#[test]
fn removing_a_device_clears_its_state_and_emits_device_removed() {
    let mut service = service();
    let id = InputDeviceId::new();

    let _added = physical(&mut service, BackendEvent::DeviceAdded(keyboard(id)));
    let _key_down = physical(&mut service, key(id, PhysicalKey::ControlLeft, true));
    let removed = physical(&mut service, BackendEvent::DeviceRemoved(id));

    assert!(matches!(removed[0].payload, InputEventPayload::DeviceRemoved(removed_id) if removed_id == id));
    assert!(service.registry().get(id).is_none());
    assert_eq!(service.registry().len(), 0);
    assert!(service.keyboard_state().held(id).is_none());
}

#[test]
fn events_from_two_devices_are_each_internally_ordered() {
    let mut service = service();
    let kb = InputDeviceId::new();
    let ms = InputDeviceId::new();

    let mut events = physical(&mut service, BackendEvent::DeviceAdded(keyboard(kb)));
    events.extend(physical(&mut service, BackendEvent::DeviceAdded(mouse(ms))));
    events.extend(physical(&mut service, key(kb, PhysicalKey::KeyA, true)));
    events.extend(physical(
        &mut service,
        BackendEvent::PointerButton { device_id: ms, button: PointerButton::Left, pressed: true },
    ));

    let sequences: Vec<u64> = events.iter().map(|e| e.sequence.0).collect();
    assert_eq!(sequences.len(), 4);
    let mut sorted = sequences.clone();
    sorted.sort();
    assert_eq!(sequences, sorted, "sequence numbers must be monotonically increasing across devices");
}

#[test]
fn pointer_capture_is_exclusive_and_revocable() {
    let mut service = service();

    let guard = service
        .request_capture(CaptureKind::Pointer, "aurora.drag", "window drag", None)
        .expect("first capture should succeed");
    assert!(service.captures().is_captured(CaptureKind::Pointer));

    let denied = service.request_capture(CaptureKind::Pointer, "other", "conflicting grab", None);
    assert!(denied.is_err());

    service.release_capture(guard);
    assert!(!service.captures().is_captured(CaptureKind::Pointer));

    let reacquired = service.request_capture(CaptureKind::Pointer, "aurora.drag", "second drag", None);
    assert!(reacquired.is_ok());
}

#[test]
fn synthetic_input_is_tagged_and_rejected_without_a_grant() {
    let mut service = service();
    let id = InputDeviceId::new();

    let keyboard_only = SyntheticInputGrant::new(SyntheticOrigin::AccessibilityTool).with_keyboard();

    let rejected = service.submit_synthetic(
        &keyboard_only,
        BackendEvent::PointerButton { device_id: id, button: PointerButton::Left, pressed: true },
    );
    assert!(rejected.is_err(), "grant without pointer permission must not be able to move the pointer");

    let events = service
        .submit_synthetic(&keyboard_only, key(id, PhysicalKey::KeyA, true))
        .expect("grant with keyboard permission should succeed");

    assert!(matches!(events[0].source, InputSource::Synthetic(SyntheticOrigin::AccessibilityTool)));
}

#[test]
fn synthetic_device_added_and_removed_are_rejected_because_no_grant_scope_covers_device_management() {
    let mut service = service();
    let id = InputDeviceId(42);
    let everything = SyntheticInputGrant::new(SyntheticOrigin::SystemTool).with_keyboard().with_pointer().with_touch();

    let added = service.submit_synthetic(&everything, BackendEvent::DeviceAdded(keyboard(id)));
    assert_eq!(
        added,
        Err(Error::SyntheticInputDenied("grant for SystemTool does not cover this event kind".to_string()))
    );
    assert!(service.registry().is_empty());

    physical(&mut service, BackendEvent::DeviceAdded(keyboard(id)));
    let removed = service.submit_synthetic(&everything, BackendEvent::DeviceRemoved(id));
    assert!(matches!(removed, Err(Error::SyntheticInputDenied(_))));
    assert!(service.registry().contains(id));
}

#[test]
fn a_refused_synthetic_submission_changes_nothing() {
    let mut service = service();
    let id = InputDeviceId(1);
    let grant = SyntheticInputGrant::new(SyntheticOrigin::AiAgent);
    let r = service.submit_synthetic_at(&grant, key(id, PhysicalKey::KeyA, true), Timestamp(5));
    assert_eq!(
        r,
        Err(Error::SyntheticInputDenied("grant for AiAgent does not cover this event kind".to_string()))
    );
    assert!(service.keyboard_state().held(id).is_none());
    let out = physical(&mut service, key(id, PhysicalKey::KeyB, true));
    assert_eq!(out[0].sequence.0, 0);
}

#[test]
fn a_second_device_added_for_the_same_id_announces_nothing() {
    let mut service = service();
    let id = InputDeviceId(3);
    assert_eq!(physical(&mut service, BackendEvent::DeviceAdded(keyboard(id))).len(), 1);
    assert!(physical(&mut service, BackendEvent::DeviceAdded(mouse(id))).is_empty());
    assert_eq!(service.registry().get(id).unwrap().name, "Test Keyboard");
    let next = physical(&mut service, key(id, PhysicalKey::KeyA, true));
    assert_eq!(next[0].sequence.0, 1);
}

#[test]
fn key_events_are_mapped_with_shift_and_carry_text_only_on_press() {
    let mut service = service();
    let id = InputDeviceId(8);
    physical(&mut service, key(id, PhysicalKey::ShiftLeft, true));
    let pressed = service.ingest_at(key(id, PhysicalKey::KeyQ, true), InputSource::Physical, Timestamp(77));
    let repeated = service.ingest_at(key(id, PhysicalKey::KeyQ, true), InputSource::Physical, Timestamp(78));
    let released = service.ingest_at(key(id, PhysicalKey::KeyQ, false), InputSource::Physical, Timestamp(79));

    let shift = Modifiers { ctrl: false, alt: false, shift: true, logo: false };
    assert_eq!(pressed[0].timestamp, Timestamp(77));
    assert_eq!(pressed[0].modifiers, shift);
    match &pressed[0].payload {
        InputEventPayload::Keyboard(k) => {
            assert_eq!(k.logical_key, LogicalKey::Character('Q'));
            assert_eq!(k.text.as_deref(), Some("Q"));
            assert_eq!(k.action, KeyAction::Down);
        }
        other => panic!("expected keyboard, got {other:?}"),
    }
    match &repeated[0].payload {
        InputEventPayload::Keyboard(k) => assert_eq!(k.action, KeyAction::Repeat),
        other => panic!("expected keyboard, got {other:?}"),
    }
    match &released[0].payload {
        InputEventPayload::Keyboard(k) => {
            assert_eq!(k.action, KeyAction::Up);
            assert_eq!(k.text, None);
            assert_eq!(k.logical_key, LogicalKey::Character('Q'));
        }
        other => panic!("expected keyboard, got {other:?}"),
    }
}

#[test]
fn pointer_events_carry_modifiers_held_on_any_keyboard() {
    let mut service = service();
    let kb = InputDeviceId(1);
    let ms = InputDeviceId(2);
    physical(&mut service, key(kb, PhysicalKey::ControlRight, true));
    let click = physical(&mut service, BackendEvent::PointerButton { device_id: ms, button: PointerButton::Left, pressed: true });
    assert_eq!(click[0].modifiers, Modifiers { ctrl: true, alt: false, shift: false, logo: false });
    assert!(service.pointer_state().state(ms).unwrap().is_pressed(PointerButton::Left));
    physical(&mut service, key(kb, PhysicalKey::ControlRight, false));
    let release =
        physical(&mut service, BackendEvent::PointerButton { device_id: ms, button: PointerButton::Left, pressed: false });
    assert_eq!(release[0].modifiers, Modifiers::default());
    assert!(!service.pointer_state().state(ms).unwrap().is_pressed(PointerButton::Left));
}

#[test]
fn motion_waits_for_the_frame_flush_and_moves_the_pointer() {
    let mut service = service();
    let ms = InputDeviceId(2);
    assert!(physical(&mut service, BackendEvent::MotionRelative { device_id: ms, dx: 3, dy: 4 }).is_empty());
    assert!(physical(&mut service, BackendEvent::MotionRelative { device_id: ms, dx: 1, dy: -1 }).is_empty());
    assert_eq!(service.pointer_state().state(ms).unwrap().position(), NormalizedPosition { x: 4, y: 3 });
    let flushed = service.flush_coalesced();
    assert_eq!(flushed.len(), 1);
    assert_eq!(flushed[0].sequence.0, 1);
    assert_eq!(flushed[0].payload, InputEventPayload::Pointer(PointerEvent::MotionRelative { dx: 4, dy: 3 }));
    assert!(service.flush_coalesced().is_empty());
}

#[test]
fn removing_a_device_drops_its_pending_motion() {
    let mut service = service();
    let ms = InputDeviceId(5);
    physical(&mut service, BackendEvent::DeviceAdded(mouse(ms)));
    physical(&mut service, BackendEvent::MotionRelative { device_id: ms, dx: 9, dy: 9 });
    let removed = physical(&mut service, BackendEvent::DeviceRemoved(ms));
    assert_eq!(removed.len(), 1);
    assert_eq!(removed[0].payload, InputEventPayload::DeviceRemoved(ms));
    assert!(service.flush_coalesced().is_empty());
    assert!(service.pointer_state().state(ms).is_none());
}

#[test]
fn touch_events_update_contacts_and_are_delivered_at_once() {
    let mut service = service();
    let ts = InputDeviceId(6);
    let down = TouchEvent {
        contact_id: ContactId(1),
        phase: TouchPhase::Down,
        position: NormalizedPosition { x: 10, y: 20 },
        pressure: None,
        size: None,
    };
    let out = physical(&mut service, BackendEvent::Touch { device_id: ts, event: down });
    assert_eq!(out.len(), 1);
    assert_eq!(service.touch_state().state(ts).unwrap().contact_count(), 1);
    let up = TouchEvent { phase: TouchPhase::Up, ..down };
    physical(&mut service, BackendEvent::Touch { device_id: ts, event: up });
    assert_eq!(service.touch_state().state(ts).unwrap().contact_count(), 0);
}

#[test]
fn a_key_event_delivers_its_device_pending_motion_first() {
    let mut service = service();
    let d = InputDeviceId(7);
    physical(&mut service, BackendEvent::MotionRelative { device_id: d, dx: 2, dy: 2 });
    let out = physical(&mut service, key(d, PhysicalKey::Enter, true));
    assert_eq!(out.len(), 2);
    assert!(matches!(out[0].payload, InputEventPayload::Pointer(PointerEvent::MotionRelative { dx: 2, dy: 2 })));
    match &out[1].payload {
        InputEventPayload::Keyboard(k) => {
            assert_eq!(k.logical_key, LogicalKey::Enter);
            assert_eq!(k.text, None);
        }
        other => panic!("expected keyboard, got {other:?}"),
    }
}

#[test]
fn capture_requests_record_owner_reason_and_mode() {
    let mut service = service();
    let guard = service
        .request_capture(CaptureKind::Pointer, "game", "pointer lock", Some(sher_input::PointerGrabMode::Locked))
        .unwrap();
    assert_eq!(guard.kind(), CaptureKind::Pointer);
    assert_eq!(service.captures().owner_of(CaptureKind::Pointer).as_deref(), Some("game"));
    assert_eq!(service.captures().reason_of(CaptureKind::Pointer).as_deref(), Some("pointer lock"));
    assert_eq!(service.captures().pointer_grab_mode(), Some(sher_input::PointerGrabMode::Locked));
    let denied = service.request_capture(CaptureKind::Pointer, "other", "x", None);
    assert_eq!(denied.err(), Some(Error::GrabDenied("Pointer already captured by 'game'".to_string())));
    assert!(!service.captures().is_captured(CaptureKind::Keyboard));
}

#[test]
fn each_device_sees_its_events_in_order_across_steps_and_flushes() {
    let mut service = service();
    let a = InputDeviceId(10);
    let b = InputDeviceId(11);
    let mut delivered = Vec::new();
    delivered.extend(physical(&mut service, BackendEvent::MotionRelative { device_id: a, dx: 1, dy: 0 }));
    delivered.extend(physical(&mut service, key(b, PhysicalKey::KeyB, true)));
    delivered.extend(physical(&mut service, BackendEvent::MotionRelative { device_id: b, dx: 0, dy: 1 }));
    delivered.extend(physical(&mut service, key(a, PhysicalKey::KeyA, true)));
    delivered.extend(physical(&mut service, BackendEvent::MotionRelative { device_id: a, dx: 2, dy: 2 }));
    delivered.extend(service.flush_coalesced());
    delivered.extend(physical(&mut service, key(b, PhysicalKey::KeyB, false)));

    for device in [a, b] {
        let seqs: Vec<u64> = delivered.iter().filter(|e| e.device_id == device).map(|e| e.sequence.0).collect();
        assert!(seqs.windows(2).all(|w| w[0] < w[1]), "{seqs:?}");
    }
    let a_seqs: Vec<u64> = delivered.iter().filter(|e| e.device_id == a).map(|e| e.sequence.0).collect();
    assert_eq!(a_seqs, vec![0, 3, 4]);
    let b_seqs: Vec<u64> = delivered.iter().filter(|e| e.device_id == b).map(|e| e.sequence.0).collect();
    assert_eq!(b_seqs, vec![1, 2, 5]);
}

#[test]
fn a_mixed_run_delivers_distinct_numbers_and_transitions_in_order() {
    let mut service = service();
    let a = InputDeviceId(20);
    let b = InputDeviceId(21);
    let grant = SyntheticInputGrant::new(SyntheticOrigin::RemoteDesktop).with_pointer().with_keyboard();
    let mut delivered = Vec::new();
    delivered.extend(physical(&mut service, BackendEvent::MotionRelative { device_id: a, dx: 1, dy: 1 }));
    delivered.extend(service.submit_synthetic(&grant, BackendEvent::MotionRelative { device_id: a, dx: 9, dy: 9 }).unwrap());
    delivered.extend(physical(&mut service, key(b, PhysicalKey::KeyC, true)));
    delivered.extend(physical(&mut service, BackendEvent::MotionRelative { device_id: a, dx: 1, dy: 0 }));
    delivered.extend(physical(&mut service, BackendEvent::PointerButton { device_id: a, button: PointerButton::Left, pressed: true }));
    delivered.extend(service.submit_synthetic(&grant, key(b, PhysicalKey::KeyD, true)).unwrap());
    delivered.extend(service.flush_coalesced());

    let mut seqs: Vec<u64> = delivered.iter().map(|e| e.sequence.0).collect();
    let transitions: Vec<u64> =
        delivered.iter().filter(|e| !e.is_coalescible()).map(|e| e.sequence.0).collect();
    assert!(transitions.windows(2).all(|w| w[0] < w[1]), "{transitions:?}");
    seqs.sort();
    seqs.dedup();
    assert_eq!(seqs.len(), delivered.len());
    // The physical and the synthetic motion of device `a` were delivered apart.
    let a_motion: Vec<(u64, InputSource)> = delivered
        .iter()
        .filter(|e| e.device_id == a && e.is_coalescible())
        .map(|e| (e.sequence.0, e.source))
        .collect();
    assert_eq!(a_motion, vec![(1, InputSource::Synthetic(SyntheticOrigin::RemoteDesktop)), (3, InputSource::Physical)]);
}
