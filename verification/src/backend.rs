use crate::device::InputDevice;
use crate::gamepad::GamepadEvent;
use crate::ids::InputDeviceId;
use crate::keyboard::PhysicalKey;
use crate::pointer::{NormalizedPosition, PointerButton, ScrollAxis};
use crate::tablet::TabletEvent;
use crate::touch::TouchEvent;
use vstd::prelude::*;

verus! {

/// What a backend reports, before layout mapping, state tracking, sequencing and
/// coalescing: a backend knows "physical key went down on device X", not the layout
/// or the device's modifier state.
#[derive(Debug, Clone, PartialEq, Eq)]
pub enum BackendEvent {
    DeviceAdded(InputDevice),
    DeviceRemoved(InputDeviceId),
    Key { device_id: InputDeviceId, physical_key: PhysicalKey, pressed: bool },
    MotionRelative { device_id: InputDeviceId, dx: i64, dy: i64 },
    MotionAbsolute { device_id: InputDeviceId, position: NormalizedPosition },
    PointerButton { device_id: InputDeviceId, button: PointerButton, pressed: bool },
    /// `delta` in 1/120 notch units.
    Scroll { device_id: InputDeviceId, axis: ScrollAxis, delta: i64, high_resolution: bool },
    Touch { device_id: InputDeviceId, event: TouchEvent },
    Tablet { device_id: InputDeviceId, event: TabletEvent },
    Gamepad { device_id: InputDeviceId, event: GamepadEvent },
}

} // verus!
