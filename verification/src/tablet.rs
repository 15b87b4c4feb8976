use crate::pointer::NormalizedPosition;
use vstd::prelude::*;

verus! {

/// A dedicated stylus abstraction, present in the event model before any backend
/// produces it.
#[derive(Debug, Clone, Copy, PartialEq, Eq, Hash, Structural)]
pub enum TabletTool {
    Pen,
    Eraser,
    Brush,
    Airbrush,
    Unknown,
}

/// `pressure`, `tilt_x` and `tilt_y` are IEEE-754 bit patterns (`f32::to_bits`) of
/// the readings; SHER-Input carries them unchanged.
#[derive(Debug, Clone, PartialEq, Eq)]
pub enum TabletEvent {
    Proximity { tool: TabletTool, entering: bool },
    Motion { position: NormalizedPosition, pressure: u32, tilt_x: u32, tilt_y: u32 },
    Button { button: u8, pressed: bool },
}

} // verus!
