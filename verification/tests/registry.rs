use sher_input::{
    BackendMetadata, ConnectionState, DeviceRegistry, Error, InputDevice, InputDeviceCapabilities, InputDeviceClass,
    InputDeviceId,
};

fn device(name: &str) -> InputDevice {
    InputDevice {
        id: InputDeviceId::new(),
        name: name.to_string(),
        vendor: None,
        product: None,
        class: InputDeviceClass::Keyboard,
        capabilities: InputDeviceCapabilities::keyboard(),
        connection_state: ConnectionState::Connected,
        physical_path: None,
        backend_metadata: BackendMetadata::default(),
    }
}

#[test]
fn add_then_get_round_trips() {
    let mut registry = DeviceRegistry::new();
    let d = device("Test Keyboard");
    let id = d.id;
    registry.add(d).unwrap();

    let fetched = registry.get(id).unwrap();
    assert_eq!(fetched.name, "Test Keyboard");
    assert_eq!(registry.len(), 1);
}

#[test]
fn duplicate_registration_is_rejected() {
    let mut registry = DeviceRegistry::new();
    let d = device("Mouse");
    let dup = d.clone();
    registry.add(d).unwrap();

    assert!(matches!(registry.add(dup), Err(Error::DeviceAlreadyRegistered(_))));
    assert_eq!(registry.len(), 1);
}

#[test]
fn removing_unknown_device_errors() {
    let mut registry = DeviceRegistry::new();
    assert!(matches!(registry.remove(InputDeviceId::new()), Err(Error::DeviceNotFound(_))));
}

#[test]
fn remove_forgets_the_device() {
    let mut registry = DeviceRegistry::new();
    let d = device("Touchpad");
    let id = d.id;
    registry.add(d).unwrap();

    registry.remove(id).unwrap();
    assert!(registry.get(id).is_none());
    assert!(registry.is_empty());
}

#[test]
fn registry_errors_name_the_device_id() {
    let mut registry = DeviceRegistry::new();
    let id = InputDeviceId(0x0123_4567_89ab_cdef_0011_2233_4455_6677);
    assert_eq!(
        registry.remove(id),
        Err(Error::DeviceNotFound("01234567-89ab-cdef-0011-223344556677".to_string()))
    );
    let mut d = device("Pad");
    d.id = id;
    registry.add(d.clone()).unwrap();
    assert_eq!(
        registry.add(d),
        Err(Error::DeviceAlreadyRegistered("01234567-89ab-cdef-0011-223344556677".to_string()))
    );
}

#[test]
fn remove_hands_back_the_registered_device() {
    let mut registry = DeviceRegistry::new();
    let d = device("Stylus");
    let id = d.id;
    registry.add(d.clone()).unwrap();
    assert_eq!(registry.remove(id), Ok(d));
    assert!(!registry.contains(id));
}

#[test]
fn list_and_connected_return_each_device_once() {
    let mut registry = DeviceRegistry::new();
    let a = device("A");
    let mut b = device("B");
    b.connection_state = ConnectionState::Disconnected;
    registry.add(a.clone()).unwrap();
    registry.add(b.clone()).unwrap();

    let all = registry.list();
    assert_eq!(all.len(), 2);
    assert!(all.contains(&a));
    assert!(all.contains(&b));
    assert_eq!(registry.connected(), vec![a]);
}

#[test]
fn device_id_text_is_hyphenated_lower_case() {
    assert_eq!(InputDeviceId(0).to_string(), "00000000-0000-0000-0000-000000000000");
    assert_eq!(InputDeviceId(u128::MAX).to_string(), "ffffffff-ffff-ffff-ffff-ffffffffffff");
    assert_ne!(InputDeviceId::new(), InputDeviceId::new());
    assert_ne!(InputDeviceId::default(), InputDeviceId::default());
}

#[test]
fn fresh_device_ids_are_version_4_uuids() {
    for _ in 0..16 {
        let v = InputDeviceId::new().0;
        assert_eq!((v >> 76) & 0xf, 4);
        assert_eq!((v >> 62) & 0x3, 2);
        let d = InputDeviceId::default().0;
        assert_eq!((d >> 76) & 0xf, 4);
        assert_eq!(InputDeviceId::new().to_string().as_bytes()[14], b'4');
    }
}
