//! SHER-Input: the input subsystem's canonical device and event model, with verified
//! normalization, per-device state tracking, sequencing, coalescing, capture and
//! synthetic-input scoping.
//!
//! Everything here is backend-independent except the `linux` module, which holds the
//! decoding of raw evdev data; reading devices, threads and channels live outside
//! this library.

pub mod backend;
pub mod capture;
pub mod coalesce;
pub mod config;
pub mod device;
pub mod error;
pub mod event;
pub mod gamepad;
pub mod id_map;
pub mod ids;
pub mod keyboard;
pub mod linux;
pub mod monitor;
pub mod ordering;
pub mod pointer;
pub mod registry;
pub mod service;
pub mod simulated;
pub mod source;
pub mod tablet;
pub mod touch;

pub use backend::BackendEvent;
pub use capture::{CaptureGuard, CaptureId, CaptureKind, CaptureRegistry, PointerGrabMode};
pub use coalesce::Coalescer;
pub use config::{AccessibilityConfig, InputConfig, KeyboardConfig, PointerConfig, TouchConfig};
pub use device::{BackendMetadata, ConnectionState, InputDevice, InputDeviceCapabilities, InputDeviceClass};
pub use error::{Error, Result};
pub use event::{InputEvent, InputEventPayload};
pub use gamepad::{GamepadAxis, GamepadButton, GamepadEvent};
pub use ids::{InputDeviceId, SequenceCounter, SequenceNumber, Timestamp};
pub use keyboard::{
    KeyAction, KeyboardEvent, KeyboardLayout, KeyboardState, KeyboardStateTable, LogicalKey, Modifiers, PhysicalKey,
    UsQwertyLayout,
};
pub use linux::LinuxBackend;
pub use pointer::{NormalizedPosition, PointerButton, PointerEvent, PointerState, PointerStateTable, ScrollAxis};
pub use registry::DeviceRegistry;
pub use service::InputService;
pub use simulated::{keyboard_device, mouse_device, touchscreen_device};
pub use source::{InputSource, SyntheticInputGrant, SyntheticOrigin};
pub use tablet::{TabletEvent, TabletTool};
pub use touch::{ContactId, TouchContact, TouchEvent, TouchPhase, TouchState, TouchStateTable};
