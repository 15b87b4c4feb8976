use sher_input::linux::device::DeviceProbe;
use sher_input::linux::hotplug::{report_removed, scan_and_report_new, KnownDevices};
use sher_input::{BackendEvent, InputDeviceClass};

fn probe(keys: &[u16]) -> DeviceProbe {
    DeviceProbe {
        key_codes: keys.to_vec(),
        relative_axes: vec![],
        absolute_axes: vec![],
        name: Some("Node".to_string()),
        vendor: 1,
        product: 2,
        bus_type: "BUS_USB".to_string(),
        physical_path: None,
    }
}

fn found(paths: &[(&str, &[u16])]) -> Vec<(String, DeviceProbe)> {
    paths.iter().map(|(p, k)| (p.to_string(), probe(k))).collect()
}

#[test]
fn a_scan_announces_each_new_node_once() {
    let mut known = KnownDevices::new();
    let first = scan_and_report_new(
        &mut known,
        found(&[("/dev/input/event0", &[30]), ("/dev/input/event1", &[0x110]), ("/dev/input/event0", &[30])]),
    );
    assert_eq!(first.len(), 2);
    assert_eq!(first[0].physical_path.as_deref(), Some("/dev/input/event0"));
    assert_eq!(first[0].class, InputDeviceClass::Keyboard);
    assert_eq!(first[1].physical_path.as_deref(), Some("/dev/input/event1"));
    assert_eq!(first[1].class, InputDeviceClass::Pointer);
    assert_eq!(known.paths(), vec!["/dev/input/event0".to_string(), "/dev/input/event1".to_string()]);

    let again = scan_and_report_new(&mut known, found(&[("/dev/input/event1", &[0x110]), ("/dev/input/event2", &[])]));
    assert_eq!(again.len(), 1);
    assert_eq!(again[0].physical_path.as_deref(), Some("/dev/input/event2"));
    assert!(known.contains(&"/dev/input/event2".to_string()));
}

#[test]
fn vanished_nodes_are_reported_removed_under_their_ids() {
    let mut known = KnownDevices::new();
    let devices =
        scan_and_report_new(&mut known, found(&[("/dev/input/a", &[30]), ("/dev/input/b", &[30]), ("/dev/input/c", &[30])]));
    let removed = report_removed(&mut known, &vec!["/dev/input/b".to_string()]);
    assert_eq!(removed, vec![BackendEvent::DeviceRemoved(devices[0].id), BackendEvent::DeviceRemoved(devices[2].id)]);
    assert_eq!(known.paths(), vec!["/dev/input/b".to_string()]);
    assert!(report_removed(&mut known, &vec!["/dev/input/b".to_string()]).is_empty());

    let back = scan_and_report_new(&mut known, found(&[("/dev/input/a", &[30])]));
    assert_eq!(back.len(), 1);
    assert_ne!(back[0].id, devices[0].id);
}

#[test]
fn announced_devices_get_version_4_ids() {
    let mut known = KnownDevices::new();
    let devices = scan_and_report_new(&mut known, found(&[("/dev/input/x", &[30]), ("/dev/input/y", &[0x110])]));
    for d in &devices {
        assert_eq!((d.id.0 >> 76) & 0xf, 4);
        assert_eq!((d.id.0 >> 62) & 0x3, 2);
    }
    let again = scan_and_report_new(&mut known, found(&[("/dev/input/x", &[30]), ("/dev/input/y", &[0x110])]));
    assert!(again.is_empty());
}
