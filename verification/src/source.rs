use vstd::prelude::*;

verus! {

/// Where an event originated. Present on every event so consumers can always tell
/// physical activity from injected activity.
#[derive(Debug, Clone, Copy, PartialEq, Eq, Hash, Structural)]
pub enum InputSource {
    /// Came from a real device through a backend.
    Physical,
    /// Injected by a trusted caller holding a [`SyntheticInputGrant`].
    Synthetic(SyntheticOrigin),
}

#[derive(Debug, Clone, Copy, PartialEq, Eq, Hash, Structural)]
pub enum SyntheticOrigin {
    AccessibilityTool,
    AutomatedTesting,
    RemoteDesktop,
    AiAgent,
    SystemTool,
}

/// Capability token required to submit synthetic input. There is deliberately no
/// unrestricted constructor: a grant starts with no permission at all and each event
/// kind has to be added explicitly.
#[derive(Debug, Clone, Copy, PartialEq, Eq, Hash, Structural)]
pub struct SyntheticInputGrant {
    pub origin: SyntheticOrigin,
    pub allows_keyboard: bool,
    pub allows_pointer: bool,
    pub allows_touch: bool,
}

impl SyntheticInputGrant {
    /// A grant for `origin` that allows nothing yet.
    pub fn new(origin: SyntheticOrigin) -> (g: SyntheticInputGrant)
        ensures
            g == (SyntheticInputGrant {
                origin,
                allows_keyboard: false,
                allows_pointer: false,
                allows_touch: false,
            }),
    {
        SyntheticInputGrant { origin, allows_keyboard: false, allows_pointer: false, allows_touch: false }
    }

    pub fn with_keyboard(self) -> (g: SyntheticInputGrant)
        ensures
            g == (SyntheticInputGrant { allows_keyboard: true, ..self }),
    {
        let mut g = self;
        g.allows_keyboard = true;
        g
    }

    pub fn with_pointer(self) -> (g: SyntheticInputGrant)
        ensures
            g == (SyntheticInputGrant { allows_pointer: true, ..self }),
    {
        let mut g = self;
        g.allows_pointer = true;
        g
    }

    pub fn with_touch(self) -> (g: SyntheticInputGrant)
        ensures
            g == (SyntheticInputGrant { allows_touch: true, ..self }),
    {
        let mut g = self;
        g.allows_touch = true;
        g
    }
}

} // verus!
