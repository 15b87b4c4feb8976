use vstd::prelude::*;

verus! {

#[derive(Debug, Clone, Copy, PartialEq, Eq, Hash, Structural)]
#[non_exhaustive]
pub enum GamepadButton {
    South,
    East,
    West,
    North,
    LeftBumper,
    RightBumper,
    LeftTrigger,
    RightTrigger,
    Select,
    Start,
    LeftStick,
    RightStick,
    DPadUp,
    DPadDown,
    DPadLeft,
    DPadRight,
    Guide,
}

#[derive(Debug, Clone, Copy, PartialEq, Eq, Hash, Structural)]
#[non_exhaustive]
pub enum GamepadAxis {
    LeftStickX,
    LeftStickY,
    RightStickX,
    RightStickY,
    LeftTrigger,
    RightTrigger,
}

/// Raw controller input, as reported by the device. Kept separate from any logical
/// action-mapping layer, which belongs to the application.
#[derive(Debug, Clone, PartialEq, Eq)]
pub enum GamepadEvent {
    Button { button: GamepadButton, pressed: bool },
    /// `value` is the IEEE-754 bit pattern (`f32::to_bits`) of the axis reading,
    /// normalized to `[-1.0, 1.0]` for sticks and `[0.0, 1.0]` for triggers.
    Axis { axis: GamepadAxis, value: u32 },
}

} // verus!
