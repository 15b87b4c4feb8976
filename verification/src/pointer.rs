use crate::id_map::IdMap;
use crate::ids::InputDeviceId;
use vstd::prelude::*;

verus! {

#[derive(Debug, Clone, Copy, PartialEq, Eq, Hash, Structural)]
pub enum PointerButton {
    Left,
    Right,
    Middle,
    Back,
    Forward,
    /// Any other button, carrying the backend's raw button code.
    Other(u16),
}

#[derive(Debug, Clone, Copy, PartialEq, Eq, Hash, Structural)]
pub enum ScrollAxis {
    Vertical,
    Horizontal,
}

/// A position in SHER-Input's own coordinate space: device units resolved to a
/// consistent origin, not yet mapped onto any output or surface.
#[derive(Debug, Clone, Copy, PartialEq, Eq, Hash, Structural)]
pub struct NormalizedPosition {
    pub x: i64,
    pub y: i64,
}

impl NormalizedPosition {
    pub fn origin() -> (p: NormalizedPosition)
        ensures
            p == (NormalizedPosition { x: 0, y: 0 }),
    {
        NormalizedPosition { x: 0, y: 0 }
    }
}

impl Default for NormalizedPosition {
    fn default() -> (p: NormalizedPosition)
        ensures
            p == (NormalizedPosition { x: 0, y: 0 }),
    {
        NormalizedPosition::origin()
    }
}

/// Scroll deltas count 1/120 of a wheel notch, the unit of high-resolution wheels; a
/// classic wheel notch is this many units.
pub const SCROLL_UNITS_PER_NOTCH: i64 = 120;

/// Relative motion (mice, touchpads) is kept distinct from absolute position
/// (touchscreens, tablets): a pointer event is one or the other, never a merge.
#[derive(Debug, Clone, Copy, PartialEq, Eq, Hash, Structural)]
pub enum PointerEvent {
    MotionRelative { dx: i64, dy: i64 },
    MotionAbsolute { position: NormalizedPosition },
    Button { button: PointerButton, pressed: bool },
    /// `delta` in 1/120 notch units (see [`SCROLL_UNITS_PER_NOTCH`]).
    Scroll { axis: ScrollAxis, delta: i64, high_resolution: bool },
    Enter,
    Leave,
}

/// `a + b`, clamped to the range of `i64`.
pub open spec fn saturating_sum(a: i64, b: i64) -> i64 {
    if a + b > i64::MAX {
        i64::MAX
    } else if a + b < i64::MIN {
        i64::MIN
    } else {
        (a + b) as i64
    }
}

/// Adds two coordinates, clamping at the ends of the `i64` range.
pub fn saturating_add(a: i64, b: i64) -> (r: i64)
    ensures
        r == saturating_sum(a, b),
{
    match a.checked_add(b) {
        Some(v) => v,
        None => if b > 0 { i64::MAX } else { i64::MIN },
    }
}

/// The abstract state of one pointer device: last position and held buttons.
pub struct PointerStateView {
    pub position: NormalizedPosition,
    pub buttons: Set<PointerButton>,
}

/// Live per-pointer-device state: held buttons and last known position.
#[derive(Debug)]
pub struct PointerState {
    position: NormalizedPosition,
    buttons: Vec<PointerButton>,
}

impl View for PointerState {
    type V = PointerStateView;

    closed spec fn view(&self) -> PointerStateView {
        PointerStateView { position: self.position, buttons: self.buttons@.to_set() }
    }
}

impl PointerState {
    pub fn new() -> (s: PointerState)
        ensures
            s@.position == (NormalizedPosition { x: 0, y: 0 }),
            s@.buttons == Set::<PointerButton>::empty(),
    {
        let s = PointerState { position: NormalizedPosition::origin(), buttons: Vec::new() };
        proof {
            assert(s.buttons@.to_set() =~= Set::<PointerButton>::empty());
        }
        s
    }

    pub fn position(&self) -> (p: NormalizedPosition)
        ensures
            p == self@.position,
    {
        self.position
    }

    pub fn is_pressed(&self, button: PointerButton) -> (b: bool)
        ensures
            b == self@.buttons.contains(button),
    {
        let mut i: usize = 0;
        while i < self.buttons.len()
            invariant
                0 <= i <= self.buttons@.len(),
                forall|j: int| 0 <= j < i ==> self.buttons@[j] != button,
            decreases self.buttons@.len() - i,
        {
            if self.buttons[i] == button {
                proof {
                    assert(self.buttons@.contains(button));
                }
                return true;
            }
            i = i + 1;
        }
        false
    }

    /// Moves the pointer by `(dx, dy)`, clamping each coordinate to the `i64` range.
    pub fn apply_relative(&mut self, dx: i64, dy: i64)
        ensures
            final(self)@.position == (NormalizedPosition {
                x: saturating_sum(old(self)@.position.x, dx),
                y: saturating_sum(old(self)@.position.y, dy),
            }),
            final(self)@.buttons == old(self)@.buttons,
    {
        self.position = NormalizedPosition {
            x: saturating_add(self.position.x, dx),
            y: saturating_add(self.position.y, dy),
        };
    }

    pub fn apply_absolute(&mut self, position: NormalizedPosition)
        ensures
            final(self)@.position == position,
            final(self)@.buttons == old(self)@.buttons,
    {
        self.position = position;
    }

    /// Records `button` as held (`pressed`) or released.
    pub fn note_button(&mut self, button: PointerButton, pressed: bool)
        ensures
            final(self)@.position == old(self)@.position,
            final(self)@.buttons == (if pressed {
                old(self)@.buttons.insert(button)
            } else {
                old(self)@.buttons.remove(button)
            }),
    {
        if pressed {
            if !self.is_pressed(button) {
                self.buttons.push(button);
                proof {
                    old(self).buttons@.lemma_push_to_set_commute(button);
                }
            } else {
                proof {
                    assert(old(self).buttons@.to_set().insert(button) =~= old(self).buttons@.to_set());
                }
            }
        } else {
            let ghost keep = |b: PointerButton| b != button;
            let mut kept: Vec<PointerButton> = Vec::new();
            let mut i: usize = 0;
            proof {
                assert(self.buttons@.take(0).filter(keep) =~= Seq::<PointerButton>::empty()) by {
                    reveal(Seq::filter);
                }
            }
            while i < self.buttons.len()
                invariant
                    0 <= i <= self.buttons@.len(),
                    kept@ == self.buttons@.take(i as int).filter(keep),
                    forall|b: PointerButton| #[trigger] keep(b) == (b != button),
                decreases self.buttons@.len() - i,
            {
                let b = self.buttons[i];
                proof {
                    assert(self.buttons@.take(i + 1) =~= self.buttons@.take(i as int).push(b));
                    self.buttons@.take(i as int).lemma_filter_push(b, keep);
                }
                if b != button {
                    kept.push(b);
                }
                i = i + 1;
            }
            proof {
                assert(self.buttons@.take(self.buttons@.len() as int) =~= self.buttons@);
                crate::keyboard::lemma_filter_to_set_remove(self.buttons@, button, keep);
            }
            self.buttons = kept;
        }
    }
}

/// The state of `device`, or the initial state if it has no entry yet.
pub open spec fn pointer_state_or_initial(table: Map<InputDeviceId, PointerStateView>, device: InputDeviceId) -> PointerStateView {
    if table.contains_key(device) {
        table[device]
    } else {
        PointerStateView { position: NormalizedPosition { x: 0, y: 0 }, buttons: Set::empty() }
    }
}

/// Per-device pointer state.
pub struct PointerStateTable {
    states: IdMap<InputDeviceId, PointerState>,
}

impl View for PointerStateTable {
    type V = Map<InputDeviceId, PointerStateView>;

    closed spec fn view(&self) -> Map<InputDeviceId, PointerStateView> {
        self.states@.map_values(|s: PointerState| s@)
    }
}

impl PointerStateTable {
    pub closed spec fn wf(&self) -> bool {
        self.states.wf()
    }

    pub fn new() -> (t: PointerStateTable)
        ensures
            t.wf(),
            t@ == Map::<InputDeviceId, PointerStateView>::empty(),
    {
        let t = PointerStateTable { states: IdMap::new() };
        proof {
            assert(t@ =~= Map::<InputDeviceId, PointerStateView>::empty());
        }
        t
    }

    fn take_or_new(&mut self, device: InputDeviceId) -> (s: PointerState)
        requires
            old(self).wf(),
        ensures
            final(self).wf(),
            final(self)@ == old(self)@.remove(device),
            s@ == pointer_state_or_initial(old(self)@, device),
    {
        let s = match self.states.take(device) {
            Some(s) => s,
            None => PointerState::new(),
        };
        proof {
            assert(self@ =~= old(self)@.remove(device));
        }
        s
    }

    fn put(&mut self, device: InputDeviceId, s: PointerState)
        requires
            old(self).wf(),
        ensures
            final(self).wf(),
            final(self)@ == old(self)@.insert(device, s@),
    {
        self.states.insert(device, s);
        proof {
            assert(self@ =~= old(self)@.insert(device, s@));
        }
    }

    /// Moves `device`'s pointer by `(dx, dy)` (creating its entry if needed).
    pub fn apply_relative(&mut self, device: InputDeviceId, dx: i64, dy: i64)
        requires
            old(self).wf(),
        ensures
            final(self).wf(),
            final(self)@ == old(self)@.insert(device, PointerStateView {
                position: NormalizedPosition {
                    x: saturating_sum(pointer_state_or_initial(old(self)@, device).position.x, dx),
                    y: saturating_sum(pointer_state_or_initial(old(self)@, device).position.y, dy),
                },
                buttons: pointer_state_or_initial(old(self)@, device).buttons,
            }),
    {
        let mut s = self.take_or_new(device);
        s.apply_relative(dx, dy);
        self.put(device, s);
        proof {
            assert(self@ =~= old(self)@.insert(device, s@));
        }
    }

    /// Places `device`'s pointer at `position` (creating its entry if needed).
    pub fn apply_absolute(&mut self, device: InputDeviceId, position: NormalizedPosition)
        requires
            old(self).wf(),
        ensures
            final(self).wf(),
            final(self)@ == old(self)@.insert(device, PointerStateView {
                position,
                buttons: pointer_state_or_initial(old(self)@, device).buttons,
            }),
    {
        let mut s = self.take_or_new(device);
        s.apply_absolute(position);
        self.put(device, s);
        proof {
            assert(self@ =~= old(self)@.insert(device, s@));
        }
    }

    /// Records a press or release of `button` on `device` (creating its entry if
    /// needed).
    pub fn note_button(&mut self, device: InputDeviceId, button: PointerButton, pressed: bool)
        requires
            old(self).wf(),
        ensures
            final(self).wf(),
            final(self)@ == old(self)@.insert(device, PointerStateView {
                position: pointer_state_or_initial(old(self)@, device).position,
                buttons: if pressed {
                    pointer_state_or_initial(old(self)@, device).buttons.insert(button)
                } else {
                    pointer_state_or_initial(old(self)@, device).buttons.remove(button)
                },
            }),
    {
        let mut s = self.take_or_new(device);
        s.note_button(button, pressed);
        self.put(device, s);
        proof {
            assert(self@ =~= old(self)@.insert(device, s@));
        }
    }

    /// The state of `device`, if it has an entry.
    pub fn state(&self, device: InputDeviceId) -> (r: Option<&PointerState>)
        requires
            self.wf(),
        ensures
            r is None <==> !self@.contains_key(device),
            r matches Some(s) ==> s@ == self@[device],
    {
        self.states.get(device)
    }

    /// Forgets everything about `device`.
    pub fn remove(&mut self, device: InputDeviceId)
        requires
            old(self).wf(),
        ensures
            final(self).wf(),
            final(self)@ == old(self)@.remove(device),
    {
        let _ = self.states.take(device);
        proof {
            assert(self@ =~= old(self)@.remove(device));
        }
    }
}

} // verus!
