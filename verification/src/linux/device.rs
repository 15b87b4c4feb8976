//! Classification of an evdev device node into the canonical device model.

use crate::device::{BackendMetadata, ConnectionState, InputDevice, InputDeviceCapabilities, InputDeviceClass};
use crate::ids::{is_uuid_v4, InputDeviceId};
pub use crate::linux::keymap::{BTN_LEFT, KEY_A, KEY_SPACE};
use crate::linux::reader::{REL_HWHEEL, REL_HWHEEL_HI_RES, REL_WHEEL, REL_WHEEL_HI_RES, REL_X};
use vstd::prelude::*;

verus! {

/// `BTN_TOUCH`.
pub const BTN_TOUCH: u16 = 0x14a;
/// `ABS_X`.
pub const ABS_X: u16 = 0x00;

/// What is known about an evdev node when it is discovered: its supported key,
/// relative-axis and absolute-axis codes, and its identity as the kernel reports it.
#[derive(Debug, Clone, PartialEq, Eq)]
pub struct DeviceProbe {
    pub key_codes: Vec<u16>,
    pub relative_axes: Vec<u16>,
    pub absolute_axes: Vec<u16>,
    pub name: Option<String>,
    pub vendor: u16,
    pub product: u16,
    /// The bus type as text (e.g. `BUS_USB`).
    pub bus_type: String,
    pub physical_path: Option<String>,
}

fn contains_code(codes: &Vec<u16>, code: u16) -> (b: bool)
    ensures
        b == codes@.contains(code),
{
    let mut i: usize = 0;
    while i < codes.len()
        invariant
            0 <= i <= codes@.len(),
            forall|j: int| 0 <= j < i ==> codes@[j] != code,
        decreases codes@.len() - i,
    {
        if codes[i] == code {
            proof {
                assert(codes@.contains(code));
            }
            return true;
        }
        i = i + 1;
    }
    false
}

/// The class of a probed device: letter keys make a keyboard, else a touch button makes
/// a touchscreen, else a left button or relative motion makes a pointer.
pub open spec fn probe_class(p: DeviceProbe) -> InputDeviceClass {
    if p.key_codes@.contains(KEY_A) || p.key_codes@.contains(KEY_SPACE) {
        InputDeviceClass::Keyboard
    } else if p.key_codes@.contains(BTN_TOUCH) {
        InputDeviceClass::Touchscreen
    } else if p.key_codes@.contains(BTN_LEFT) || p.relative_axes@.contains(REL_X) {
        InputDeviceClass::Pointer
    } else {
        InputDeviceClass::Unknown
    }
}

/// The capabilities of a probed device. Absolute motion only counts as pointer input
/// on devices without touch; a touch device may track up to ten contacts.
pub open spec fn probe_capabilities(p: DeviceProbe) -> InputDeviceCapabilities {
    let touch = p.key_codes@.contains(BTN_TOUCH);
    InputDeviceCapabilities {
        keys: p.key_codes@.contains(KEY_A) || p.key_codes@.contains(KEY_SPACE),
        pointer_relative: p.relative_axes@.contains(REL_X),
        pointer_absolute: p.absolute_axes@.contains(ABS_X) && !touch,
        scroll: p.relative_axes@.contains(REL_WHEEL) || p.relative_axes@.contains(REL_HWHEEL),
        scroll_high_resolution: p.relative_axes@.contains(REL_WHEEL_HI_RES) || p.relative_axes@.contains(REL_HWHEEL_HI_RES),
        touch,
        max_touch_contacts: if touch { 10 } else { 0 },
        tablet: false,
        gamepad: false,
    }
}

/// Whether `d` describes the device found at `path` with `probe`: class and
/// capabilities as classified from the probe, the kernel's name (or "unknown input
/// device"), vendor and product, connected, `path` as its physical path, and
/// diagnostics metadata naming the backend, bus type and physical path (or "unknown").
pub open spec fn describes(d: InputDevice, path: Seq<char>, probe: DeviceProbe) -> bool {
    &&& d.class == probe_class(probe)
    &&& d.capabilities == probe_capabilities(probe)
    &&& d.name@ == (match probe.name {
        Some(n) => n@,
        None => "unknown input device"@,
    })
    &&& d.vendor == Some(probe.vendor)
    &&& d.product == Some(probe.product)
    &&& d.connection_state == ConnectionState::Connected
    &&& d.physical_path matches Some(p) && p@ == path
    &&& d.wf()
    &&& d.backend_metadata@ == Map::<Seq<char>, Seq<char>>::empty().insert("backend"@, "linux-evdev"@).insert(
        "bus_type"@,
        probe.bus_type@,
    ).insert(
        "phys"@,
        match probe.physical_path {
            Some(p) => p@,
            None => "unknown"@,
        },
    )
}

/// Describes the device found at `path` under the id `id`.
pub fn describe_with_id(id: InputDeviceId, path: &str, probe: &DeviceProbe) -> (d: InputDevice)
    ensures
        d.id == id,
        describes(d, path@, *probe),
{
    let has_letter_keys = contains_code(&probe.key_codes, KEY_A) || contains_code(&probe.key_codes, KEY_SPACE);
    let has_pointer_buttons = contains_code(&probe.key_codes, BTN_LEFT);
    let has_relative_motion = contains_code(&probe.relative_axes, REL_X);
    let has_touch = contains_code(&probe.key_codes, BTN_TOUCH);
    let has_absolute_motion = contains_code(&probe.absolute_axes, ABS_X);
    let class = if has_letter_keys {
        InputDeviceClass::Keyboard
    } else if has_touch {
        InputDeviceClass::Touchscreen
    } else if has_pointer_buttons || has_relative_motion {
        InputDeviceClass::Pointer
    } else {
        InputDeviceClass::Unknown
    };
    let capabilities = InputDeviceCapabilities {
        keys: has_letter_keys,
        pointer_relative: has_relative_motion,
        pointer_absolute: has_absolute_motion && !has_touch,
        scroll: contains_code(&probe.relative_axes, REL_WHEEL) || contains_code(&probe.relative_axes, REL_HWHEEL),
        scroll_high_resolution: contains_code(&probe.relative_axes, REL_WHEEL_HI_RES) || contains_code(
            &probe.relative_axes,
            REL_HWHEEL_HI_RES,
        ),
        touch: has_touch,
        max_touch_contacts: if has_touch { 10 } else { 0 },
        tablet: false,
        gamepad: false,
    };
    let name = match &probe.name {
        Some(n) => n.clone(),
        None => String::from_str("unknown input device"),
    };
    let phys: &str = match &probe.physical_path {
        Some(p) => p.as_str(),
        None => "unknown",
    };
    let metadata = BackendMetadata::new().insert("backend", "linux-evdev").insert("bus_type", probe.bus_type.as_str()).insert(
        "phys",
        phys,
    );
    InputDevice {
        id,
        name,
        vendor: Some(probe.vendor),
        product: Some(probe.product),
        class,
        capabilities,
        connection_state: ConnectionState::Connected,
        physical_path: Some(String::from_str(path)),
        backend_metadata: metadata,
    }
}

/// [`describe_with_id`] under a freshly minted id.
pub fn describe(path: &str, probe: &DeviceProbe) -> (d: InputDevice)
    ensures
        describes(d, path@, *probe),
        is_uuid_v4(d.id.0),
{
    describe_with_id(InputDeviceId::new(), path, probe)
}

} // verus!
