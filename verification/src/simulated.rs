//! Canonical simulated devices, for driving the service without hardware.

use crate::device::{
    BackendMetadata, ConnectionState, InputDevice, InputDeviceCapabilities, InputDeviceClass,
};
use crate::ids::{is_uuid_v4, InputDeviceId};
use vstd::prelude::*;

verus! {

/// A simulated device of `class` with `capabilities`, named `name`, under a fresh id;
/// no vendor, product or path, metadata naming the simulated backend.
fn simulated_device(name: &str, class: InputDeviceClass, capabilities: InputDeviceCapabilities) -> (d: InputDevice)
    ensures
        d.name@ == name@,
        d.vendor is None,
        d.product is None,
        d.class == class,
        d.capabilities == capabilities,
        d.connection_state == ConnectionState::Connected,
        d.physical_path is None,
        d.wf(),
        d.backend_metadata@ == Map::<Seq<char>, Seq<char>>::empty().insert("backend"@, "simulated"@),
        is_uuid_v4(d.id.0),
{
    InputDevice {
        id: InputDeviceId::new(),
        name: String::from_str(name),
        vendor: None,
        product: None,
        class,
        capabilities,
        connection_state: ConnectionState::Connected,
        physical_path: None,
        backend_metadata: BackendMetadata::new().insert("backend", "simulated"),
    }
}

/// A simulated keyboard.
pub fn keyboard_device(name: &str) -> (d: InputDevice)
    ensures
        d.name@ == name@,
        d.class == InputDeviceClass::Keyboard,
        d.capabilities == (InputDeviceCapabilities { keys: true, ..InputDeviceCapabilities::spec_empty() }),
        d.connection_state == ConnectionState::Connected,
        d.vendor is None && d.product is None && d.physical_path is None,
        d.wf(),
        d.backend_metadata@ == Map::<Seq<char>, Seq<char>>::empty().insert("backend"@, "simulated"@),
        is_uuid_v4(d.id.0),
{
    simulated_device(name, InputDeviceClass::Keyboard, InputDeviceCapabilities::keyboard())
}

/// A simulated mouse.
pub fn mouse_device(name: &str) -> (d: InputDevice)
    ensures
        d.name@ == name@,
        d.class == InputDeviceClass::Pointer,
        d.capabilities == (InputDeviceCapabilities {
            pointer_relative: true,
            scroll: true,
            ..InputDeviceCapabilities::spec_empty()
        }),
        d.connection_state == ConnectionState::Connected,
        d.vendor is None && d.product is None && d.physical_path is None,
        d.wf(),
        d.backend_metadata@ == Map::<Seq<char>, Seq<char>>::empty().insert("backend"@, "simulated"@),
        is_uuid_v4(d.id.0),
{
    simulated_device(name, InputDeviceClass::Pointer, InputDeviceCapabilities::mouse())
}

/// A simulated touchscreen tracking up to `max_contacts` contacts.
pub fn touchscreen_device(name: &str, max_contacts: u32) -> (d: InputDevice)
    ensures
        d.name@ == name@,
        d.class == InputDeviceClass::Touchscreen,
        d.capabilities == (InputDeviceCapabilities {
            pointer_absolute: true,
            touch: true,
            max_touch_contacts: max_contacts,
            ..InputDeviceCapabilities::spec_empty()
        }),
        d.connection_state == ConnectionState::Connected,
        d.vendor is None && d.product is None && d.physical_path is None,
        d.wf(),
        d.backend_metadata@ == Map::<Seq<char>, Seq<char>>::empty().insert("backend"@, "simulated"@),
        is_uuid_v4(d.id.0),
{
    simulated_device(name, InputDeviceClass::Touchscreen, InputDeviceCapabilities::touchscreen(max_contacts))
}

} // verus!
