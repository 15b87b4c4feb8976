//! The consumer contract, end to end: the service provides normalized events, and a
//! small stand-in router (built only on the public API) decides focus and routing.

use sher_input::{
    keyboard_device, mouse_device, BackendEvent, CaptureKind, InputConfig, InputDeviceId, InputEvent, InputEventPayload,
    InputService, InputSource, KeyAction, LogicalKey, PhysicalKey, PointerEvent, UsQwertyLayout,
};
use std::collections::HashMap;

#[derive(Default)]
struct MockDisplayRouter {
    keyboard_focus: Option<&'static str>,
    pointer_over: Option<&'static str>,
    global_shortcuts: HashMap<(bool, bool, PhysicalKey), &'static str>,
    delivered: Vec<Delivery>,
}

#[derive(Debug, PartialEq)]
enum Delivery {
    GlobalShortcut(&'static str),
    ToSurface(&'static str, String),
    Dropped,
}

impl MockDisplayRouter {
    fn route(&mut self, event: &InputEvent, captured_pointer_owner: Option<&'static str>) {
        match &event.payload {
            InputEventPayload::Keyboard(k) if k.action == KeyAction::Down => {
                let key = (event.modifiers.ctrl, event.modifiers.alt, k.physical_key);
                if let Some(action) = self.global_shortcuts.get(&key) {
                    self.delivered.push(Delivery::GlobalShortcut(action));
                    return;
                }
                match self.keyboard_focus {
                    Some(surface) => self.delivered.push(Delivery::ToSurface(surface, format!("{:?}", k.logical_key))),
                    None => self.delivered.push(Delivery::Dropped),
                }
            }
            InputEventPayload::Pointer(PointerEvent::MotionRelative { .. }) => {
                let target = captured_pointer_owner.or(self.pointer_over);
                match target {
                    Some(surface) => self.delivered.push(Delivery::ToSurface(surface, "motion".to_string())),
                    None => self.delivered.push(Delivery::Dropped),
                }
            }
            _ => {}
        }
    }
}

/// Feeds backend events to the service like a backend would, then flushes coalesced
/// samples as the frame tick does; returns everything delivered except hotplug.
fn feed(service: &mut InputService<UsQwertyLayout>, events: Vec<BackendEvent>) -> Vec<InputEvent> {
    let mut out = Vec::new();
    for e in events {
        out.extend(service.ingest(e, InputSource::Physical));
    }
    out.extend(service.flush_coalesced());
    out.into_iter()
        .filter(|e| !matches!(e.payload, InputEventPayload::DeviceAdded(_) | InputEventPayload::DeviceRemoved(_)))
        .collect()
}

fn add_keyboard(service: &mut InputService<UsQwertyLayout>) -> InputDeviceId {
    let kb = keyboard_device("Test Keyboard");
    let id = kb.id;
    service.ingest(BackendEvent::DeviceAdded(kb), InputSource::Physical);
    id
}

fn tap(kb: InputDeviceId, key: PhysicalKey) -> Vec<BackendEvent> {
    vec![
        BackendEvent::Key { device_id: kb, physical_key: key, pressed: true },
        BackendEvent::Key { device_id: kb, physical_key: key, pressed: false },
    ]
}

#[test]
fn unfocused_key_events_are_dropped_not_broadcast_to_every_surface() {
    let mut service = InputService::new(InputConfig::default());
    let kb = add_keyboard(&mut service);
    let mut router = MockDisplayRouter::default();

    let events = feed(&mut service, tap(kb, PhysicalKey::KeyA));
    router.route(&events[0], None);

    assert_eq!(router.delivered, vec![Delivery::Dropped]);
}

#[test]
fn focused_surface_receives_its_own_keys_only() {
    let mut service = InputService::new(InputConfig::default());
    let kb = add_keyboard(&mut service);
    let mut router = MockDisplayRouter { keyboard_focus: Some("surface-42"), ..Default::default() };

    let events = feed(&mut service, tap(kb, PhysicalKey::KeyA));
    router.route(&events[0], None);

    assert_eq!(
        router.delivered,
        vec![Delivery::ToSurface("surface-42", format!("{:?}", LogicalKey::Character('a')))]
    );
}

#[test]
fn global_shortcut_intercepts_before_focused_surface() {
    let mut service = InputService::new(InputConfig::default());
    let kb = add_keyboard(&mut service);
    let mut router = MockDisplayRouter { keyboard_focus: Some("some-app"), ..Default::default() };
    router.global_shortcuts.insert((true, false, PhysicalKey::KeyT), "aurora.launcher.open");

    let mut input = vec![BackendEvent::Key { device_id: kb, physical_key: PhysicalKey::ControlLeft, pressed: true }];
    input.extend(tap(kb, PhysicalKey::KeyT));
    let events = feed(&mut service, input);

    router.route(&events[0], None);
    router.route(&events[1], None);

    assert_eq!(router.delivered[1], Delivery::GlobalShortcut("aurora.launcher.open"));
}

#[test]
fn pointer_capture_overrides_hit_test_target_and_is_revocable() {
    let mut service = InputService::new(InputConfig::default());
    let mouse = mouse_device("Test Mouse");
    let ms = mouse.id;
    service.ingest(BackendEvent::DeviceAdded(mouse), InputSource::Physical);
    let mut router = MockDisplayRouter { pointer_over: Some("window-under-cursor"), ..Default::default() };

    let guard = service.request_capture(CaptureKind::Pointer, "window-being-dragged", "titlebar drag", None).unwrap();

    let motion = feed(&mut service, vec![BackendEvent::MotionRelative { device_id: ms, dx: 5, dy: 5 }]);
    let owner = service.captures().owner_of(CaptureKind::Pointer);
    router.route(&motion[0], owner.as_deref().map(|_| "window-being-dragged"));

    assert_eq!(router.delivered, vec![Delivery::ToSurface("window-being-dragged", "motion".to_string())]);

    service.release_capture(guard);
    assert!(!service.captures().is_captured(CaptureKind::Pointer));

    let after = feed(&mut service, vec![BackendEvent::MotionRelative { device_id: ms, dx: 1, dy: 1 }]);
    router.route(&after[0], None);

    assert_eq!(router.delivered[1], Delivery::ToSurface("window-under-cursor", "motion".to_string()));
}

#[test]
fn unplugging_the_keyboard_mid_session_is_reported_not_fatal() {
    let mut service = InputService::new(InputConfig::default());
    let kb_device = keyboard_device("Test Keyboard");
    let kb = kb_device.id;

    let added = service.ingest(BackendEvent::DeviceAdded(kb_device), InputSource::Physical);
    let _added: InputDeviceId = match &added[0].payload {
        InputEventPayload::DeviceAdded(d) => d.id,
        other => panic!("expected DeviceAdded, got {other:?}"),
    };

    let _ctrl_down = service.ingest(
        BackendEvent::Key { device_id: kb, physical_key: PhysicalKey::ControlLeft, pressed: true },
        InputSource::Physical,
    );

    let removed = service.ingest(BackendEvent::DeviceRemoved(kb), InputSource::Physical);
    assert!(matches!(removed[0].payload, InputEventPayload::DeviceRemoved(id) if id == kb));

    assert!(service.registry().get(kb).is_none());
}
