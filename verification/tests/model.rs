use sher_input::linux::device::{describe, describe_with_id, DeviceProbe};
use sher_input::{
    keyboard_device, mouse_device, touchscreen_device, BackendMetadata, CaptureKind, CaptureRegistry, ConnectionState,
    Error, InputConfig, InputDeviceCapabilities, InputDeviceClass, InputDeviceId, KeyboardLayout, KeyboardState,
    KeyboardStateTable, LinuxBackend, LogicalKey, Modifiers, NormalizedPosition, PhysicalKey, PointerButton,
    PointerGrabMode, PointerState, PointerStateTable, SequenceCounter, SyntheticInputGrant, SyntheticOrigin, Timestamp,
    UsQwertyLayout,
};

#[test]
fn sequence_counter_hands_out_consecutive_numbers() {
    let mut c = SequenceCounter::new();
    assert_eq!(c.next().0, 0);
    assert_eq!(c.next().0, 1);
    assert_eq!(c.next().0, 2);
}

#[test]
fn timestamps_report_their_nanoseconds() {
    assert_eq!(Timestamp(123).as_nanos(), 123);
    assert!(Timestamp::now().as_nanos() > 0);
}

#[test]
fn default_config_matches_the_documented_values() {
    let c = InputConfig::default();
    assert_eq!(c.keyboard.layout, "us");
    assert_eq!(c.keyboard.repeat_delay_ms, 500);
    assert_eq!(c.keyboard.repeat_rate_hz, 25);
    assert_eq!(f64::from_bits(c.pointer.speed), 1.0);
    assert_eq!(f64::from_bits(c.pointer.acceleration), 1.0);
    assert!(!c.pointer.natural_scrolling);
    assert!(!c.pointer.left_handed);
    assert!(c.touch.tap_to_click);
    assert!(c.touch.palm_rejection);
    assert!(!c.accessibility.sticky_keys && !c.accessibility.slow_keys);
    assert!(!c.accessibility.bounce_keys && !c.accessibility.mouse_keys);
    assert_eq!(c.clone(), c);
}

#[test]
fn capability_presets_set_only_their_flags() {
    let k = InputDeviceCapabilities::keyboard();
    assert!(k.keys && !k.pointer_relative && !k.touch && !k.scroll);
    let m = InputDeviceCapabilities::mouse();
    assert!(m.pointer_relative && m.scroll && !m.keys && !m.pointer_absolute);
    let t = InputDeviceCapabilities::touchscreen(5);
    assert!(t.touch && t.pointer_absolute && !t.keys);
    assert_eq!(t.max_touch_contacts, 5);
    assert_eq!(InputDeviceCapabilities::empty(), InputDeviceCapabilities::default());
    assert!(!InputDeviceCapabilities::empty().keys);
}

#[test]
fn backend_metadata_insert_replaces_and_get_finds() {
    let m = BackendMetadata::new().insert("backend", "linux-evdev").insert("phys", "usb-1").insert("backend", "other");
    assert_eq!(m.len(), 2);
    assert_eq!(m.get("backend").map(String::as_str), Some("other"));
    assert_eq!(m.get("phys").map(String::as_str), Some("usb-1"));
    assert_eq!(m.get("missing"), None);
    assert_eq!(m.clone(), m);
}

#[test]
fn simulated_devices_have_the_canonical_shape() {
    let k = keyboard_device("Sim Keyboard");
    assert_eq!(k.name, "Sim Keyboard");
    assert_eq!(k.class, InputDeviceClass::Keyboard);
    assert_eq!(k.capabilities, InputDeviceCapabilities::keyboard());
    assert_eq!(k.connection_state, ConnectionState::Connected);
    assert_eq!(k.backend_metadata.get("backend").map(String::as_str), Some("simulated"));
    let m = mouse_device("Sim Mouse");
    assert_eq!(m.class, InputDeviceClass::Pointer);
    assert!(m.supports(|c| c.pointer_relative));
    assert!(!m.supports(|c| c.keys));
    let t = touchscreen_device("Sim Touch", 10);
    assert_eq!(t.capabilities, InputDeviceCapabilities::touchscreen(10));
    assert_ne!(k.id, m.id);
}

fn probe(keys: &[u16], rel: &[u16], abs: &[u16]) -> DeviceProbe {
    DeviceProbe {
        key_codes: keys.to_vec(),
        relative_axes: rel.to_vec(),
        absolute_axes: abs.to_vec(),
        name: Some("Probe".to_string()),
        vendor: 0x046d,
        product: 0xc077,
        bus_type: "BUS_USB".to_string(),
        physical_path: Some("usb-0000:00:14.0-1/input0".to_string()),
    }
}

#[test]
fn describe_classifies_a_mouse_and_records_metadata() {
    let p = probe(&[0x110, 0x111], &[0x00, 0x01, 0x08, 0x0b], &[]);
    let d = describe_with_id(InputDeviceId(11), "/dev/input/event3", &p);
    assert_eq!(d.id, InputDeviceId(11));
    assert_eq!(d.class, InputDeviceClass::Pointer);
    assert!(d.capabilities.pointer_relative && d.capabilities.scroll && d.capabilities.scroll_high_resolution);
    assert!(!d.capabilities.keys && !d.capabilities.touch);
    assert_eq!(d.name, "Probe");
    assert_eq!(d.vendor, Some(0x046d));
    assert_eq!(d.product, Some(0xc077));
    assert_eq!(d.physical_path.as_deref(), Some("/dev/input/event3"));
    assert_eq!(d.backend_metadata.get("backend").map(String::as_str), Some("linux-evdev"));
    assert_eq!(d.backend_metadata.get("bus_type").map(String::as_str), Some("BUS_USB"));
    assert_eq!(d.backend_metadata.get("phys").map(String::as_str), Some("usb-0000:00:14.0-1/input0"));
}

#[test]
fn describe_prefers_keyboard_then_touch_classes() {
    let kb = describe("/dev/input/event1", &probe(&[30, 0x110], &[0x00], &[]));
    assert_eq!(kb.class, InputDeviceClass::Keyboard);
    assert!(kb.capabilities.keys && kb.capabilities.pointer_relative);

    let mut tp = probe(&[0x14a], &[], &[0x00]);
    tp.name = None;
    tp.physical_path = None;
    let touch = describe("/dev/input/event2", &tp);
    assert_eq!(touch.class, InputDeviceClass::Touchscreen);
    assert!(touch.capabilities.touch && !touch.capabilities.pointer_absolute);
    assert_eq!(touch.capabilities.max_touch_contacts, 10);
    assert_eq!(touch.name, "unknown input device");
    assert_eq!(touch.backend_metadata.get("phys").map(String::as_str), Some("unknown"));

    let tablet_like = describe("/dev/input/event4", &probe(&[], &[], &[0x00]));
    assert_eq!(tablet_like.class, InputDeviceClass::Unknown);
    assert!(tablet_like.capabilities.pointer_absolute);
    let _ = LinuxBackend::new();
}

#[test]
fn keyboard_state_tracks_held_keys_and_modifiers() {
    let mut s = KeyboardState::new();
    s.note_down(PhysicalKey::ShiftRight);
    s.note_down(PhysicalKey::AltLeft);
    s.note_down(PhysicalKey::AltLeft);
    assert!(s.is_pressed(PhysicalKey::AltLeft));
    assert_eq!(s.modifiers(), Modifiers { ctrl: false, alt: true, shift: true, logo: false });
    s.note_up(PhysicalKey::AltLeft);
    assert!(!s.is_pressed(PhysicalKey::AltLeft));
    assert_eq!(s.modifiers(), Modifiers { ctrl: false, alt: false, shift: true, logo: false });
}

#[test]
fn keyboard_table_reports_repeat_and_aggregates_modifiers() {
    let mut t = KeyboardStateTable::new();
    let a = InputDeviceId(1);
    let b = InputDeviceId(2);
    let (m, was) = t.note_key(a, PhysicalKey::SuperLeft, true);
    assert_eq!(m, Modifiers { ctrl: false, alt: false, shift: false, logo: true });
    assert!(!was);
    let (_, was) = t.note_key(a, PhysicalKey::SuperLeft, true);
    assert!(was);
    t.note_key(b, PhysicalKey::ControlLeft, true);
    assert_eq!(t.aggregate(), Modifiers { ctrl: true, alt: false, shift: false, logo: true });
    t.remove(a);
    assert_eq!(t.aggregate(), Modifiers { ctrl: true, alt: false, shift: false, logo: false });
    assert!(t.held(a).is_none());
    assert_eq!(Modifiers::none().or(Modifiers { ctrl: false, alt: true, shift: false, logo: false }).alt, true);
}

#[test]
fn us_qwerty_maps_shifted_characters_and_named_keys() {
    let l = UsQwertyLayout;
    let shift = Modifiers { ctrl: false, alt: false, shift: true, logo: false };
    assert_eq!(l.map(PhysicalKey::Digit1, shift), LogicalKey::Character('!'));
    assert_eq!(l.map(PhysicalKey::Digit1, Modifiers::none()), LogicalKey::Character('1'));
    assert_eq!(l.map(PhysicalKey::F5, shift), LogicalKey::F(5));
    assert_eq!(l.map(PhysicalKey::Other(250), shift), LogicalKey::Unidentified);
    assert_eq!(l.text_for(LogicalKey::Character('x'), Modifiers::none()).as_deref(), Some("x"));
    assert_eq!(l.text_for(LogicalKey::Escape, Modifiers::none()), None);
}

#[test]
fn pointer_state_moves_saturating_and_tracks_buttons() {
    let mut p = PointerState::new();
    p.apply_relative(i64::MAX, -5);
    p.apply_relative(10, 0);
    assert_eq!(p.position(), NormalizedPosition { x: i64::MAX, y: -5 });
    p.apply_absolute(NormalizedPosition { x: 1, y: 2 });
    assert_eq!(p.position(), NormalizedPosition { x: 1, y: 2 });
    p.note_button(PointerButton::Other(0x115), true);
    assert!(p.is_pressed(PointerButton::Other(0x115)));
    p.note_button(PointerButton::Other(0x115), false);
    assert!(!p.is_pressed(PointerButton::Other(0x115)));

    let mut t = PointerStateTable::new();
    let d = InputDeviceId(3);
    t.apply_relative(d, 4, 4);
    t.note_button(d, PointerButton::Right, true);
    assert_eq!(t.state(d).unwrap().position(), NormalizedPosition { x: 4, y: 4 });
    t.remove(d);
    assert!(t.state(d).is_none());
}

#[test]
fn capture_registry_is_exclusive_per_kind_and_guards_release() {
    let mut r = CaptureRegistry::new();
    let first = r.acquire(CaptureKind::Keyboard, "launcher", "search", None).unwrap();
    let pointer = r.acquire(CaptureKind::Pointer, "game", "aim", Some(PointerGrabMode::Confined)).unwrap();
    assert!(r.is_captured(CaptureKind::Keyboard) && r.is_captured(CaptureKind::Pointer));
    assert_eq!(
        r.acquire(CaptureKind::Keyboard, "x", "y", None).err(),
        Some(Error::GrabDenied("Keyboard already captured by 'launcher'".to_string()))
    );
    assert_eq!(r.pointer_grab_mode(), Some(PointerGrabMode::Confined));
    first.release(&mut r);
    assert!(!r.is_captured(CaptureKind::Keyboard));
    assert_eq!(r.owner_of(CaptureKind::Keyboard), None);
    pointer.release(&mut r);
    assert_eq!(r.pointer_grab_mode(), None);
    assert!(!r.is_captured(CaptureKind::Touch));
}

#[test]
fn synthetic_grants_start_empty_and_add_each_kind() {
    let g = SyntheticInputGrant::new(SyntheticOrigin::RemoteDesktop);
    assert!(!g.allows_keyboard && !g.allows_pointer && !g.allows_touch);
    let g = g.with_pointer().with_touch();
    assert!(!g.allows_keyboard && g.allows_pointer && g.allows_touch);
    assert_eq!(g.origin, SyntheticOrigin::RemoteDesktop);
    assert!(g.with_keyboard().allows_keyboard);
}

#[test]
fn timestamps_from_nanoseconds_keep_the_low_64_bits() {
    assert_eq!(Timestamp::from_nanos(1_234).as_nanos(), 1_234);
    assert_eq!(Timestamp::from_nanos((1u128 << 64) + 7).as_nanos(), 7);
    assert_eq!(Timestamp::from_nanos(u64::MAX as u128).as_nanos(), u64::MAX);
}
