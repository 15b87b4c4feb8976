use sher_input::monitor::{demo_script, fmt_modifiers, latency_between, latency_since, short_id};
use sher_input::{
    BackendEvent, InputDeviceClass, InputDeviceId, InputEvent, InputEventPayload, InputSource, Modifiers, PhysicalKey,
    PointerButton, SequenceNumber, Timestamp,
};

fn event_with(modifiers: Modifiers) -> InputEvent {
    InputEvent {
        timestamp: Timestamp(0),
        sequence: SequenceNumber(0),
        device_id: InputDeviceId(0),
        source: InputSource::Physical,
        modifiers,
        payload: InputEventPayload::DeviceRemoved(InputDeviceId(0)),
    }
}

#[test]
fn modifier_labels_list_held_modifiers_in_order() {
    assert_eq!(fmt_modifiers(&event_with(Modifiers::none())), "none");
    assert_eq!(fmt_modifiers(&event_with(Modifiers { ctrl: true, alt: false, shift: false, logo: false })), "ctrl");
    assert_eq!(
        fmt_modifiers(&event_with(Modifiers { ctrl: true, alt: true, shift: true, logo: true })),
        "ctrl+alt+shift+super"
    );
    assert_eq!(fmt_modifiers(&event_with(Modifiers { ctrl: false, alt: false, shift: true, logo: true })), "shift+super");
}

#[test]
fn short_ids_are_the_first_eight_characters() {
    assert_eq!(short_id(InputDeviceId(0x0123_4567_89ab_cdef_0011_2233_4455_6677)), "01234567");
    let id = InputDeviceId::new();
    assert_eq!(short_id(id), id.to_string()[..8].to_string());
}

#[test]
fn latency_is_whole_microseconds_and_never_negative() {
    assert_eq!(latency_between(Timestamp(5_999), Timestamp(1_000)), 4);
    assert_eq!(latency_between(Timestamp(1_000), Timestamp(5_000)), 0);
    assert!(latency_since(Timestamp(0)) > 0);
}

#[test]
fn demo_script_plugs_in_two_devices_then_types_and_clicks() {
    let script = demo_script();
    assert_eq!(script.len(), 9);
    let (kb, mouse) = match (&script[0], &script[1]) {
        ((200, BackendEvent::DeviceAdded(k)), (200, BackendEvent::DeviceAdded(m))) => {
            assert_eq!(k.name, "Demo Keyboard");
            assert_eq!(k.class, InputDeviceClass::Keyboard);
            assert_eq!(m.name, "Demo Mouse");
            assert_eq!(m.class, InputDeviceClass::Pointer);
            (k.id, m.id)
        }
        other => panic!("unexpected start of script: {other:?}"),
    };
    assert_eq!(
        script[2..].to_vec(),
        vec![
            (400, BackendEvent::Key { device_id: kb, physical_key: PhysicalKey::KeyH, pressed: true }),
            (80, BackendEvent::Key { device_id: kb, physical_key: PhysicalKey::KeyH, pressed: false }),
            (400, BackendEvent::Key { device_id: kb, physical_key: PhysicalKey::KeyI, pressed: true }),
            (80, BackendEvent::Key { device_id: kb, physical_key: PhysicalKey::KeyI, pressed: false }),
            (600, BackendEvent::MotionRelative { device_id: mouse, dx: 12, dy: -4 }),
            (150, BackendEvent::PointerButton { device_id: mouse, button: PointerButton::Left, pressed: true }),
            (80, BackendEvent::PointerButton { device_id: mouse, button: PointerButton::Left, pressed: false }),
        ]
    );
}
