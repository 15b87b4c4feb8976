use vstd::prelude::*;

verus! {

/// Input configuration, applied when normalizing backend events; a backend never
/// reads it.
#[derive(Debug, PartialEq)]
pub struct InputConfig {
    pub keyboard: KeyboardConfig,
    pub pointer: PointerConfig,
    pub touch: TouchConfig,
    pub accessibility: AccessibilityConfig,
}

#[derive(Debug, PartialEq, Eq)]
pub struct KeyboardConfig {
    pub layout: String,
    pub repeat_delay_ms: u32,
    pub repeat_rate_hz: u32,
}

/// `speed` and `acceleration` are IEEE-754 bit patterns (`f64::to_bits`) of the
/// factors; SHER-Input stores them unchanged.
#[derive(Debug, Clone, Copy, PartialEq, Eq, Hash, Structural)]
pub struct PointerConfig {
    pub speed: u64,
    pub acceleration: u64,
    pub natural_scrolling: bool,
    pub left_handed: bool,
}

#[derive(Debug, Clone, Copy, PartialEq, Eq, Hash, Structural)]
pub struct TouchConfig {
    pub tap_to_click: bool,
    pub palm_rejection: bool,
}

/// Accessibility flags carried from the start, even though the behavior they imply
/// arrives later.
#[derive(Debug, Clone, Copy, PartialEq, Eq, Hash, Structural)]
pub struct AccessibilityConfig {
    pub sticky_keys: bool,
    pub slow_keys: bool,
    pub bounce_keys: bool,
    pub mouse_keys: bool,
}

/// The bit pattern of the `f64` value 1.0.
pub const ONE_F64_BITS: u64 = 0x3ff0_0000_0000_0000;

impl Default for KeyboardConfig {
    /// US layout, 500 ms repeat delay, 25 Hz repeat rate.
    fn default() -> (c: KeyboardConfig)
        ensures
            c.layout@ == seq!['u', 's'],
            c.repeat_delay_ms == 500,
            c.repeat_rate_hz == 25,
    {
        let layout = String::from_str("us");
        proof {
            reveal_strlit("us");
        }
        KeyboardConfig { layout, repeat_delay_ms: 500, repeat_rate_hz: 25 }
    }
}

impl Clone for KeyboardConfig {
    fn clone(&self) -> (c: KeyboardConfig)
        ensures
            c == *self,
    {
        KeyboardConfig {
            layout: self.layout.clone(),
            repeat_delay_ms: self.repeat_delay_ms,
            repeat_rate_hz: self.repeat_rate_hz,
        }
    }
}

impl Default for PointerConfig {
    /// Speed and acceleration 1.0, natural scrolling and left-handed mode off.
    fn default() -> (c: PointerConfig)
        ensures
            c == (PointerConfig {
                speed: ONE_F64_BITS,
                acceleration: ONE_F64_BITS,
                natural_scrolling: false,
                left_handed: false,
            }),
    {
        PointerConfig { speed: ONE_F64_BITS, acceleration: ONE_F64_BITS, natural_scrolling: false, left_handed: false }
    }
}

impl Default for TouchConfig {
    /// Tap-to-click and palm rejection on.
    fn default() -> (c: TouchConfig)
        ensures
            c == (TouchConfig { tap_to_click: true, palm_rejection: true }),
    {
        TouchConfig { tap_to_click: true, palm_rejection: true }
    }
}

impl Default for AccessibilityConfig {
    /// Every flag off.
    fn default() -> (c: AccessibilityConfig)
        ensures
            c == (AccessibilityConfig { sticky_keys: false, slow_keys: false, bounce_keys: false, mouse_keys: false }),
    {
        AccessibilityConfig { sticky_keys: false, slow_keys: false, bounce_keys: false, mouse_keys: false }
    }
}

impl Default for InputConfig {
    /// Every section at its own default.
    fn default() -> (c: InputConfig)
        ensures
            c.keyboard.layout@ == seq!['u', 's'],
            c.keyboard.repeat_delay_ms == 500,
            c.keyboard.repeat_rate_hz == 25,
            c.pointer == (PointerConfig {
                speed: ONE_F64_BITS,
                acceleration: ONE_F64_BITS,
                natural_scrolling: false,
                left_handed: false,
            }),
            c.touch == (TouchConfig { tap_to_click: true, palm_rejection: true }),
            c.accessibility == (AccessibilityConfig {
                sticky_keys: false,
                slow_keys: false,
                bounce_keys: false,
                mouse_keys: false,
            }),
    {
        InputConfig {
            keyboard: KeyboardConfig::default(),
            pointer: PointerConfig::default(),
            touch: TouchConfig::default(),
            accessibility: AccessibilityConfig::default(),
        }
    }
}

impl Clone for InputConfig {
    fn clone(&self) -> (c: InputConfig)
        ensures
            c == *self,
    {
        InputConfig {
            keyboard: self.keyboard.clone(),
            pointer: self.pointer,
            touch: self.touch,
            accessibility: self.accessibility,
        }
    }
}

} // verus!
