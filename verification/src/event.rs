use crate::device::{InputDevice, InputDeviceView};
use crate::gamepad::GamepadEvent;
use crate::ids::{InputDeviceId, SequenceNumber, Timestamp};
use crate::keyboard::{KeyAction, KeyboardEvent, LogicalKey, Modifiers, PhysicalKey};
use crate::pointer::PointerEvent;
use crate::source::InputSource;
use crate::tablet::TabletEvent;
use crate::touch::TouchEvent;
use vstd::prelude::*;

verus! {

/// The payload of an [`InputEvent`]. Hotplug is a normal event in the same ordered,
/// sequenced stream as input.
#[derive(Debug, Clone, PartialEq, Eq)]
pub enum InputEventPayload {
    Keyboard(KeyboardEvent),
    Pointer(PointerEvent),
    Touch(TouchEvent),
    Tablet(TabletEvent),
    Gamepad(GamepadEvent),
    DeviceAdded(InputDevice),
    DeviceRemoved(InputDeviceId),
}

/// The canonical SHER input event: enough to place it in the global order
/// (`timestamp` + `sequence`), attribute it to a device, and know whether it came
/// from hardware or a trusted synthetic source.
#[derive(Debug, Clone, PartialEq, Eq)]
pub struct InputEvent {
    pub timestamp: Timestamp,
    pub sequence: SequenceNumber,
    pub device_id: InputDeviceId,
    pub source: InputSource,
    pub modifiers: Modifiers,
    pub payload: InputEventPayload,
}

/// The abstract value of a [`KeyboardEvent`], with the text as characters.
pub struct KeyboardEventView {
    pub physical_key: PhysicalKey,
    pub logical_key: LogicalKey,
    pub text: Option<Seq<char>>,
    pub action: KeyAction,
}

impl View for KeyboardEvent {
    type V = KeyboardEventView;

    open spec fn view(&self) -> KeyboardEventView {
        KeyboardEventView {
            physical_key: self.physical_key,
            logical_key: self.logical_key,
            text: match self.text {
                Some(t) => Some(t@),
                None => None,
            },
            action: self.action,
        }
    }
}

/// The abstract value of an [`InputEventPayload`].
pub enum InputEventPayloadView {
    Keyboard(KeyboardEventView),
    Pointer(PointerEvent),
    Touch(TouchEvent),
    Tablet(TabletEvent),
    Gamepad(GamepadEvent),
    DeviceAdded(InputDeviceView),
    DeviceRemoved(InputDeviceId),
}

impl View for InputEventPayload {
    type V = InputEventPayloadView;

    open spec fn view(&self) -> InputEventPayloadView {
        match *self {
            InputEventPayload::Keyboard(k) => InputEventPayloadView::Keyboard(k@),
            InputEventPayload::Pointer(p) => InputEventPayloadView::Pointer(p),
            InputEventPayload::Touch(t) => InputEventPayloadView::Touch(t),
            InputEventPayload::Tablet(t) => InputEventPayloadView::Tablet(t),
            InputEventPayload::Gamepad(g) => InputEventPayloadView::Gamepad(g),
            InputEventPayload::DeviceAdded(d) => InputEventPayloadView::DeviceAdded(d@),
            InputEventPayload::DeviceRemoved(id) => InputEventPayloadView::DeviceRemoved(id),
        }
    }
}

/// The abstract value of an [`InputEvent`].
pub struct InputEventView {
    pub timestamp: Timestamp,
    pub sequence: SequenceNumber,
    pub device_id: InputDeviceId,
    pub source: InputSource,
    pub modifiers: Modifiers,
    pub payload: InputEventPayloadView,
}

impl View for InputEvent {
    type V = InputEventView;

    open spec fn view(&self) -> InputEventView {
        InputEventView {
            timestamp: self.timestamp,
            sequence: self.sequence,
            device_id: self.device_id,
            source: self.source,
            modifiers: self.modifiers,
            payload: self.payload@,
        }
    }
}

/// The views of a sequence of events.
pub open spec fn event_views(s: Seq<InputEvent>) -> Seq<InputEventView> {
    s.map_values(|e: InputEvent| e@)
}

/// High-frequency motion and scroll samples, the only events that may be coalesced.
pub open spec fn spec_is_coalescible(payload: InputEventPayload) -> bool {
    match payload {
        InputEventPayload::Pointer(PointerEvent::MotionRelative { .. }) => true,
        InputEventPayload::Pointer(PointerEvent::MotionAbsolute { .. }) => true,
        InputEventPayload::Pointer(PointerEvent::Scroll { .. }) => true,
        _ => false,
    }
}

impl InputEvent {
    /// `true` for motion and scroll samples, which may be coalesced under backpressure;
    /// button, key, touch and hotplug events always answer `false`.
    pub fn is_coalescible(&self) -> (b: bool)
        ensures
            b == spec_is_coalescible(self.payload),
    {
        match &self.payload {
            InputEventPayload::Pointer(PointerEvent::MotionRelative { .. }) => true,
            InputEventPayload::Pointer(PointerEvent::MotionAbsolute { .. }) => true,
            InputEventPayload::Pointer(PointerEvent::Scroll { .. }) => true,
            _ => false,
        }
    }
}

} // verus!
