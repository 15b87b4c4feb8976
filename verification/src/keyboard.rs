use crate::id_map::IdMap;
use crate::ids::InputDeviceId;
use vstd::prelude::*;

verus! {

/// A key identified by its position on the keyboard, independent of layout.
#[derive(Debug, Clone, Copy, PartialEq, Eq, Hash, Structural)]
pub enum PhysicalKey {
    KeyA, KeyB, KeyC, KeyD, KeyE, KeyF, KeyG, KeyH, KeyI, KeyJ, KeyK, KeyL, KeyM,
    KeyN, KeyO, KeyP, KeyQ, KeyR, KeyS, KeyT, KeyU, KeyV, KeyW, KeyX, KeyY, KeyZ,
    Digit0, Digit1, Digit2, Digit3, Digit4, Digit5, Digit6, Digit7, Digit8, Digit9,
    Enter, Escape, Backspace, Tab, Space,
    Minus, Equal, BracketLeft, BracketRight, Backslash, Semicolon, Quote, Grave,
    Comma, Period, Slash,
    CapsLock, ScrollLock, NumLock,
    F1, F2, F3, F4, F5, F6, F7, F8, F9, F10, F11, F12,
    PrintScreen, Pause, Insert, Home, PageUp, Delete, End, PageDown,
    ArrowRight, ArrowLeft, ArrowDown, ArrowUp,
    ControlLeft, ShiftLeft, AltLeft, SuperLeft,
    ControlRight, ShiftRight, AltRight, SuperRight,
    MediaPlayPause, MediaNextTrack, MediaPrevTrack, MediaVolumeUp, MediaVolumeDown, MediaMute,
    Compose,
    /// A key with no named variant, carrying the backend's raw key code.
    Other(u32),
}

/// What a key means under the active layout and modifier state.
#[derive(Debug, Clone, Copy, PartialEq, Eq, Hash, Structural)]
pub enum LogicalKey {
    Character(char),
    Enter, Escape, Backspace, Tab,
    CapsLock, ScrollLock, NumLock,
    /// Function key `F(n)` for `n` in `1..=12`.
    F(u8),
    PrintScreen, Pause, Insert, Home, PageUp, Delete, End, PageDown,
    ArrowRight, ArrowLeft, ArrowDown, ArrowUp,
    Control, Shift, Alt, Super,
    MediaPlayPause, MediaNextTrack, MediaPrevTrack, MediaVolumeUp, MediaVolumeDown, MediaMute,
    Compose,
    /// A key the layout does not know.
    Unidentified,
}

#[derive(Debug, Clone, Copy, PartialEq, Eq, Hash, Structural)]
pub enum KeyAction {
    Down,
    Up,
    /// A press of a key that was already held.
    Repeat,
}

/// Which modifier keys are held.
#[derive(Debug, Clone, Copy, PartialEq, Eq, Hash, Structural)]
pub struct Modifiers {
    pub ctrl: bool,
    pub alt: bool,
    pub shift: bool,
    pub logo: bool,
}

impl Modifiers {
    pub open spec fn spec_none() -> Modifiers {
        Modifiers { ctrl: false, alt: false, shift: false, logo: false }
    }

    /// No modifier held.
    pub fn none() -> (m: Modifiers)
        ensures
            m == Modifiers::spec_none(),
    {
        Modifiers { ctrl: false, alt: false, shift: false, logo: false }
    }

    pub open spec fn spec_or(self, other: Modifiers) -> Modifiers {
        Modifiers {
            ctrl: self.ctrl || other.ctrl,
            alt: self.alt || other.alt,
            shift: self.shift || other.shift,
            logo: self.logo || other.logo,
        }
    }

    /// The modifiers held in either `self` or `other`.
    pub fn or(self, other: Modifiers) -> (m: Modifiers)
        ensures
            m == self.spec_or(other),
    {
        Modifiers {
            ctrl: self.ctrl || other.ctrl,
            alt: self.alt || other.alt,
            shift: self.shift || other.shift,
            logo: self.logo || other.logo,
        }
    }
}

impl Default for Modifiers {
    fn default() -> (m: Modifiers)
        ensures
            m == Modifiers::spec_none(),
    {
        Modifiers::none()
    }
}

#[derive(Debug, Clone, PartialEq, Eq)]
pub struct KeyboardEvent {
    pub physical_key: PhysicalKey,
    pub logical_key: LogicalKey,
    /// The text the key press produces, if any (never set on release).
    pub text: Option<String>,
    pub action: KeyAction,
}

/// The modifiers implied by a set of held keys: either the left or the right key of
/// each modifier pair counts.
pub open spec fn modifiers_of(held: Set<PhysicalKey>) -> Modifiers {
    Modifiers {
        ctrl: held.contains(PhysicalKey::ControlLeft) || held.contains(PhysicalKey::ControlRight),
        alt: held.contains(PhysicalKey::AltLeft) || held.contains(PhysicalKey::AltRight),
        shift: held.contains(PhysicalKey::ShiftLeft) || held.contains(PhysicalKey::ShiftRight),
        logo: held.contains(PhysicalKey::SuperLeft) || held.contains(PhysicalKey::SuperRight),
    }
}

/// Held keys of one keyboard device.
#[derive(Debug)]
pub struct KeyboardState {
    held: Vec<PhysicalKey>,
}

impl View for KeyboardState {
    type V = Set<PhysicalKey>;

    closed spec fn view(&self) -> Set<PhysicalKey> {
        self.held@.to_set()
    }
}

impl KeyboardState {
    pub fn new() -> (s: KeyboardState)
        ensures
            s@ == Set::<PhysicalKey>::empty(),
    {
        let s = KeyboardState { held: Vec::new() };
        proof {
            assert(s.held@.to_set() =~= Set::<PhysicalKey>::empty());
        }
        s
    }

    pub fn is_pressed(&self, key: PhysicalKey) -> (b: bool)
        ensures
            b == self@.contains(key),
    {
        let mut i: usize = 0;
        while i < self.held.len()
            invariant
                0 <= i <= self.held@.len(),
                forall|j: int| 0 <= j < i ==> self.held@[j] != key,
            decreases self.held@.len() - i,
        {
            if self.held[i] == key {
                proof {
                    assert(self.held@.contains(key));
                }
                return true;
            }
            i = i + 1;
        }
        proof {
            assert(!self.held@.contains(key));
        }
        false
    }

    /// Records `key` as held.
    pub fn note_down(&mut self, key: PhysicalKey)
        ensures
            final(self)@ == old(self)@.insert(key),
    {
        if !self.is_pressed(key) {
            self.held.push(key);
        }
        proof {
            assert(self.held@.to_set() =~= old(self).held@.to_set().insert(key)) by {
                assert forall|k: PhysicalKey| #[trigger] self.held@.contains(k) <==> old(self).held@.contains(k) || k == key by {
                    if old(self).held@.contains(k) {
                        let j = choose|j: int| 0 <= j < old(self).held@.len() && old(self).held@[j] == k;
                        assert(self.held@[j] == k);
                    }
                    if k == key && !old(self).held@.contains(key) {
                        assert(self.held@[self.held@.len() - 1] == key);
                    }
                    if self.held@.contains(k) && k != key {
                        let j = choose|j: int| 0 <= j < self.held@.len() && self.held@[j] == k;
                        assert(old(self).held@[j] == k);
                    }
                }
            }
        }
    }

    /// Records `key` as released.
    pub fn note_up(&mut self, key: PhysicalKey)
        ensures
            final(self)@ == old(self)@.remove(key),
    {
        let ghost keep = |k: PhysicalKey| k != key;
        let mut kept: Vec<PhysicalKey> = Vec::new();
        let mut i: usize = 0;
        proof {
            assert(self.held@.take(0).filter(keep) =~= Seq::<PhysicalKey>::empty()) by {
                reveal(Seq::filter);
            }
        }
        while i < self.held.len()
            invariant
                0 <= i <= self.held@.len(),
                kept@ == self.held@.take(i as int).filter(keep),
                forall|k: PhysicalKey| #[trigger] keep(k) == (k != key),
            decreases self.held@.len() - i,
        {
            let k = self.held[i];
            proof {
                assert(self.held@.take(i + 1) =~= self.held@.take(i as int).push(k));
                self.held@.take(i as int).lemma_filter_push(k, keep);
            }
            if k != key {
                kept.push(k);
            }
            i = i + 1;
        }
        proof {
            assert(self.held@.take(self.held@.len() as int) =~= self.held@);
            lemma_filter_to_set_remove(self.held@, key, keep);
        }
        self.held = kept;
    }

    /// The modifiers implied by the held keys.
    pub fn modifiers(&self) -> (m: Modifiers)
        ensures
            m == modifiers_of(self@),
    {
        Modifiers {
            ctrl: self.is_pressed(PhysicalKey::ControlLeft) || self.is_pressed(PhysicalKey::ControlRight),
            alt: self.is_pressed(PhysicalKey::AltLeft) || self.is_pressed(PhysicalKey::AltRight),
            shift: self.is_pressed(PhysicalKey::ShiftLeft) || self.is_pressed(PhysicalKey::ShiftRight),
            logo: self.is_pressed(PhysicalKey::SuperLeft) || self.is_pressed(PhysicalKey::SuperRight),
        }
    }
}

/// Dropping every occurrence of `x` from a sequence removes `x` from its set of
/// elements and nothing else.
pub proof fn lemma_filter_to_set_remove<A>(s: Seq<A>, x: A, keep: spec_fn(A) -> bool)
    requires
        forall|k: A| #[trigger] keep(k) == (k != x),
    ensures
        s.filter(keep).to_set() == s.to_set().remove(x),
{
    let f = s.filter(keep);
    assert forall|k: A| #[trigger] f.contains(k) <==> s.contains(k) && k != x by {
        if f.contains(k) {
            s.lemma_filter_contains_rev(keep, k);
            let j = choose|j: int| 0 <= j < f.len() && f[j] == k;
            s.lemma_filter_pred(keep, j);
        }
        if s.contains(k) && k != x {
            let j = choose|j: int| 0 <= j < s.len() && s[j] == k;
            s.lemma_filter_contains(keep, j);
        }
    }
    assert(f.to_set() =~= s.to_set().remove(x));
}

/// The modifiers held on any keyboard: a modifier counts when it is held on at least
/// one device.
pub open spec fn aggregate_modifiers_of(table: Map<InputDeviceId, Set<PhysicalKey>>) -> Modifiers {
    Modifiers {
        ctrl: exists|d: InputDeviceId| #[trigger] table.contains_key(d) && modifiers_of(table[d]).ctrl,
        alt: exists|d: InputDeviceId| #[trigger] table.contains_key(d) && modifiers_of(table[d]).alt,
        shift: exists|d: InputDeviceId| #[trigger] table.contains_key(d) && modifiers_of(table[d]).shift,
        logo: exists|d: InputDeviceId| #[trigger] table.contains_key(d) && modifiers_of(table[d]).logo,
    }
}

/// The held keys of `device`, or none if the device has no entry yet.
pub open spec fn held_keys(table: Map<InputDeviceId, Set<PhysicalKey>>, device: InputDeviceId) -> Set<PhysicalKey> {
    if table.contains_key(device) {
        table[device]
    } else {
        Set::empty()
    }
}

/// Per-device keyboard state.
pub struct KeyboardStateTable {
    states: IdMap<InputDeviceId, KeyboardState>,
}

impl View for KeyboardStateTable {
    type V = Map<InputDeviceId, Set<PhysicalKey>>;

    closed spec fn view(&self) -> Map<InputDeviceId, Set<PhysicalKey>> {
        self.states@.map_values(|s: KeyboardState| s@)
    }
}

impl KeyboardStateTable {
    pub closed spec fn wf(&self) -> bool {
        self.states.wf()
    }

    pub fn new() -> (t: KeyboardStateTable)
        ensures
            t.wf(),
            t@ == Map::<InputDeviceId, Set<PhysicalKey>>::empty(),
    {
        let t = KeyboardStateTable { states: IdMap::new() };
        proof {
            assert(t@ =~= Map::<InputDeviceId, Set<PhysicalKey>>::empty());
        }
        t
    }

    /// Records a press (`pressed`) or release of `key` on `device`, creating the
    /// device's entry if needed. Returns the device's modifiers after the change and
    /// whether the key was already held before it.
    pub fn note_key(&mut self, device: InputDeviceId, key: PhysicalKey, pressed: bool) -> (r: (Modifiers, bool))
        requires
            old(self).wf(),
        ensures
            final(self).wf(),
            final(self)@ == old(self)@.insert(
                device,
                if pressed {
                    held_keys(old(self)@, device).insert(key)
                } else {
                    held_keys(old(self)@, device).remove(key)
                },
            ),
            r.0 == modifiers_of(final(self)@[device]),
            r.1 == held_keys(old(self)@, device).contains(key),
    {
        let mut state = match self.states.take(device) {
            Some(s) => s,
            None => KeyboardState::new(),
        };
        let was_pressed = state.is_pressed(key);
        if pressed {
            state.note_down(key);
        } else {
            state.note_up(key);
        }
        let modifiers = state.modifiers();
        self.states.insert(device, state);
        proof {
            assert(self@ =~= old(self)@.insert(device, state@));
        }
        (modifiers, was_pressed)
    }

    /// Forgets everything about `device`.
    pub fn remove(&mut self, device: InputDeviceId)
        requires
            old(self).wf(),
        ensures
            final(self).wf(),
            final(self)@ == old(self)@.remove(device),
    {
        let _ = self.states.take(device);
        proof {
            assert(self@ =~= old(self)@.remove(device));
        }
    }

    /// The held keys of `device`, if it has an entry.
    pub fn held(&self, device: InputDeviceId) -> (r: Option<&KeyboardState>)
        requires
            self.wf(),
        ensures
            r is None <==> !self@.contains_key(device),
            r matches Some(s) ==> s@ == self@[device],
    {
        self.states.get(device)
    }

    /// The modifiers held across all keyboards.
    pub fn aggregate(&self) -> (m: Modifiers)
        requires
            self.wf(),
        ensures
            m == aggregate_modifiers_of(self@),
    {
        let mut acc = Modifiers::none();
        let n = self.states.len();
        let ghost entries = self.states.entries();
        proof {
            self.states.lemma_entries_list_map();
        }
        let mut i: usize = 0;
        while i < n
            invariant
                self.wf(),
                n == entries.len(),
                entries == self.states.entries(),
                0 <= i <= n,
                acc.ctrl == exists|j: int| 0 <= j < i && #[trigger] modifiers_of(entries[j].1@).ctrl,
                acc.alt == exists|j: int| 0 <= j < i && #[trigger] modifiers_of(entries[j].1@).alt,
                acc.shift == exists|j: int| 0 <= j < i && #[trigger] modifiers_of(entries[j].1@).shift,
                acc.logo == exists|j: int| 0 <= j < i && #[trigger] modifiers_of(entries[j].1@).logo,
            decreases n - i,
        {
            let m = self.states.value_at(i).modifiers();
            acc = acc.or(m);
            proof {
                assert(modifiers_of(entries[i as int].1@) == m);
            }
            i = i + 1;
        }
        proof {
            let t = self@;
            self.states.lemma_entries_list_map();
            assert forall|d: InputDeviceId| #[trigger] t.contains_key(d) implies exists|j: int|
                0 <= j < n && entries[j].0 == d && entries[j].1@ == t[d] by {
                let j = choose|j: int| 0 <= j < entries.len() && #[trigger] entries[j].0 == d;
                assert(self.states@.contains_key(d));
            }
            assert forall|j: int| 0 <= j < n implies #[trigger] t.contains_key(entries[j].0) && t[entries[j].0] == entries[j].1@ by {
                assert(self.states@.contains_key(entries[j].0));
            }
            let goal = aggregate_modifiers_of(t);
            if acc.ctrl {
                let j = choose|j: int| 0 <= j < n && #[trigger] modifiers_of(entries[j].1@).ctrl;
                assert(0 <= j < n);
                assert(modifiers_of(entries[j].1@).ctrl);
                assert(t.contains_key(entries[j].0));
                assert(t[entries[j].0] == entries[j].1@);
                assert(t.contains_key(entries[j].0) && modifiers_of(t[entries[j].0]).ctrl);
            }
            if goal.ctrl {
                let d = choose|d: InputDeviceId| #[trigger] t.contains_key(d) && modifiers_of(t[d]).ctrl;
                let j = choose|j: int| 0 <= j < n && entries[j].0 == d && entries[j].1@ == t[d];
                assert(modifiers_of(entries[j].1@).ctrl);
            }
            if acc.alt {
                let j = choose|j: int| 0 <= j < n && #[trigger] modifiers_of(entries[j].1@).alt;
                assert(0 <= j < n);
                assert(modifiers_of(entries[j].1@).alt);
                assert(t.contains_key(entries[j].0));
                assert(t[entries[j].0] == entries[j].1@);
                assert(t.contains_key(entries[j].0) && modifiers_of(t[entries[j].0]).alt);
            }
            if goal.alt {
                let d = choose|d: InputDeviceId| #[trigger] t.contains_key(d) && modifiers_of(t[d]).alt;
                let j = choose|j: int| 0 <= j < n && entries[j].0 == d && entries[j].1@ == t[d];
                assert(modifiers_of(entries[j].1@).alt);
            }
            if acc.shift {
                let j = choose|j: int| 0 <= j < n && #[trigger] modifiers_of(entries[j].1@).shift;
                assert(0 <= j < n);
                assert(modifiers_of(entries[j].1@).shift);
                assert(t.contains_key(entries[j].0));
                assert(t[entries[j].0] == entries[j].1@);
                assert(t.contains_key(entries[j].0) && modifiers_of(t[entries[j].0]).shift);
            }
            if goal.shift {
                let d = choose|d: InputDeviceId| #[trigger] t.contains_key(d) && modifiers_of(t[d]).shift;
                let j = choose|j: int| 0 <= j < n && entries[j].0 == d && entries[j].1@ == t[d];
                assert(modifiers_of(entries[j].1@).shift);
            }
            if acc.logo {
                let j = choose|j: int| 0 <= j < n && #[trigger] modifiers_of(entries[j].1@).logo;
                assert(0 <= j < n);
                assert(modifiers_of(entries[j].1@).logo);
                assert(t.contains_key(entries[j].0));
                assert(t[entries[j].0] == entries[j].1@);
                assert(t.contains_key(entries[j].0) && modifiers_of(t[entries[j].0]).logo);
            }
            if goal.logo {
                let d = choose|d: InputDeviceId| #[trigger] t.contains_key(d) && modifiers_of(t[d]).logo;
                let j = choose|j: int| 0 <= j < n && entries[j].0 == d && entries[j].1@ == t[d];
                assert(modifiers_of(entries[j].1@).logo);
            }
        }
        acc
    }
}


/// A keyboard layout: maps physical keys to logical keys and logical keys to text.
pub trait KeyboardLayout {
    /// The logical key `key` produces under `modifiers`.
    spec fn spec_map(&self, key: PhysicalKey, modifiers: Modifiers) -> LogicalKey;

    /// The text a press of `key` produces under `modifiers`, if any.
    spec fn spec_text_for(&self, key: LogicalKey, modifiers: Modifiers) -> Option<Seq<char>>;

    fn map(&self, key: PhysicalKey, modifiers: Modifiers) -> (r: LogicalKey)
        ensures
            r == self.spec_map(key, modifiers),
    ;

    fn text_for(&self, key: LogicalKey, modifiers: Modifiers) -> (r: Option<String>)
        ensures
            r is None <==> self.spec_text_for(key, modifiers) is None,
            r matches Some(s) ==> self.spec_text_for(key, modifiers) == Some(s@),
    ;
}

/// The US QWERTY layout: letters, digits and punctuation produce their character
/// (the shifted one while Shift is held); every other named key maps to its logical
/// counterpart, left and right modifier keys alike; unknown keys are unidentified.
pub open spec fn us_qwerty_key(key: PhysicalKey, shift: bool) -> LogicalKey {
    match key {
        PhysicalKey::KeyA => LogicalKey::Character(if shift { 'A' } else { 'a' }),
        PhysicalKey::KeyB => LogicalKey::Character(if shift { 'B' } else { 'b' }),
        PhysicalKey::KeyC => LogicalKey::Character(if shift { 'C' } else { 'c' }),
        PhysicalKey::KeyD => LogicalKey::Character(if shift { 'D' } else { 'd' }),
        PhysicalKey::KeyE => LogicalKey::Character(if shift { 'E' } else { 'e' }),
        PhysicalKey::KeyF => LogicalKey::Character(if shift { 'F' } else { 'f' }),
        PhysicalKey::KeyG => LogicalKey::Character(if shift { 'G' } else { 'g' }),
        PhysicalKey::KeyH => LogicalKey::Character(if shift { 'H' } else { 'h' }),
        PhysicalKey::KeyI => LogicalKey::Character(if shift { 'I' } else { 'i' }),
        PhysicalKey::KeyJ => LogicalKey::Character(if shift { 'J' } else { 'j' }),
        PhysicalKey::KeyK => LogicalKey::Character(if shift { 'K' } else { 'k' }),
        PhysicalKey::KeyL => LogicalKey::Character(if shift { 'L' } else { 'l' }),
        PhysicalKey::KeyM => LogicalKey::Character(if shift { 'M' } else { 'm' }),
        PhysicalKey::KeyN => LogicalKey::Character(if shift { 'N' } else { 'n' }),
        PhysicalKey::KeyO => LogicalKey::Character(if shift { 'O' } else { 'o' }),
        PhysicalKey::KeyP => LogicalKey::Character(if shift { 'P' } else { 'p' }),
        PhysicalKey::KeyQ => LogicalKey::Character(if shift { 'Q' } else { 'q' }),
        PhysicalKey::KeyR => LogicalKey::Character(if shift { 'R' } else { 'r' }),
        PhysicalKey::KeyS => LogicalKey::Character(if shift { 'S' } else { 's' }),
        PhysicalKey::KeyT => LogicalKey::Character(if shift { 'T' } else { 't' }),
        PhysicalKey::KeyU => LogicalKey::Character(if shift { 'U' } else { 'u' }),
        PhysicalKey::KeyV => LogicalKey::Character(if shift { 'V' } else { 'v' }),
        PhysicalKey::KeyW => LogicalKey::Character(if shift { 'W' } else { 'w' }),
        PhysicalKey::KeyX => LogicalKey::Character(if shift { 'X' } else { 'x' }),
        PhysicalKey::KeyY => LogicalKey::Character(if shift { 'Y' } else { 'y' }),
        PhysicalKey::KeyZ => LogicalKey::Character(if shift { 'Z' } else { 'z' }),
        PhysicalKey::Digit1 => LogicalKey::Character(if shift { '!' } else { '1' }),
        PhysicalKey::Digit2 => LogicalKey::Character(if shift { '@' } else { '2' }),
        PhysicalKey::Digit3 => LogicalKey::Character(if shift { '#' } else { '3' }),
        PhysicalKey::Digit4 => LogicalKey::Character(if shift { '$' } else { '4' }),
        PhysicalKey::Digit5 => LogicalKey::Character(if shift { '%' } else { '5' }),
        PhysicalKey::Digit6 => LogicalKey::Character(if shift { '^' } else { '6' }),
        PhysicalKey::Digit7 => LogicalKey::Character(if shift { '&' } else { '7' }),
        PhysicalKey::Digit8 => LogicalKey::Character(if shift { '*' } else { '8' }),
        PhysicalKey::Digit9 => LogicalKey::Character(if shift { '(' } else { '9' }),
        PhysicalKey::Digit0 => LogicalKey::Character(if shift { ')' } else { '0' }),
        PhysicalKey::Space => LogicalKey::Character(' '),
        PhysicalKey::Minus => LogicalKey::Character(if shift { '_' } else { '-' }),
        PhysicalKey::Equal => LogicalKey::Character(if shift { '+' } else { '=' }),
        PhysicalKey::BracketLeft => LogicalKey::Character(if shift { '{' } else { '[' }),
        PhysicalKey::BracketRight => LogicalKey::Character(if shift { '}' } else { ']' }),
        PhysicalKey::Backslash => LogicalKey::Character(if shift { '|' } else { '\\' }),
        PhysicalKey::Semicolon => LogicalKey::Character(if shift { ':' } else { ';' }),
        PhysicalKey::Quote => LogicalKey::Character(if shift { '"' } else { '\'' }),
        PhysicalKey::Grave => LogicalKey::Character(if shift { '~' } else { '`' }),
        PhysicalKey::Comma => LogicalKey::Character(if shift { '<' } else { ',' }),
        PhysicalKey::Period => LogicalKey::Character(if shift { '>' } else { '.' }),
        PhysicalKey::Slash => LogicalKey::Character(if shift { '?' } else { '/' }),
        PhysicalKey::Enter => LogicalKey::Enter,
        PhysicalKey::Escape => LogicalKey::Escape,
        PhysicalKey::Backspace => LogicalKey::Backspace,
        PhysicalKey::Tab => LogicalKey::Tab,
        PhysicalKey::CapsLock => LogicalKey::CapsLock,
        PhysicalKey::ScrollLock => LogicalKey::ScrollLock,
        PhysicalKey::NumLock => LogicalKey::NumLock,
        PhysicalKey::F1 => LogicalKey::F(1),
        PhysicalKey::F2 => LogicalKey::F(2),
        PhysicalKey::F3 => LogicalKey::F(3),
        PhysicalKey::F4 => LogicalKey::F(4),
        PhysicalKey::F5 => LogicalKey::F(5),
        PhysicalKey::F6 => LogicalKey::F(6),
        PhysicalKey::F7 => LogicalKey::F(7),
        PhysicalKey::F8 => LogicalKey::F(8),
        PhysicalKey::F9 => LogicalKey::F(9),
        PhysicalKey::F10 => LogicalKey::F(10),
        PhysicalKey::F11 => LogicalKey::F(11),
        PhysicalKey::F12 => LogicalKey::F(12),
        PhysicalKey::PrintScreen => LogicalKey::PrintScreen,
        PhysicalKey::Pause => LogicalKey::Pause,
        PhysicalKey::Insert => LogicalKey::Insert,
        PhysicalKey::Home => LogicalKey::Home,
        PhysicalKey::PageUp => LogicalKey::PageUp,
        PhysicalKey::Delete => LogicalKey::Delete,
        PhysicalKey::End => LogicalKey::End,
        PhysicalKey::PageDown => LogicalKey::PageDown,
        PhysicalKey::ArrowRight => LogicalKey::ArrowRight,
        PhysicalKey::ArrowLeft => LogicalKey::ArrowLeft,
        PhysicalKey::ArrowDown => LogicalKey::ArrowDown,
        PhysicalKey::ArrowUp => LogicalKey::ArrowUp,
        PhysicalKey::ControlLeft => LogicalKey::Control,
        PhysicalKey::ControlRight => LogicalKey::Control,
        PhysicalKey::ShiftLeft => LogicalKey::Shift,
        PhysicalKey::ShiftRight => LogicalKey::Shift,
        PhysicalKey::AltLeft => LogicalKey::Alt,
        PhysicalKey::AltRight => LogicalKey::Alt,
        PhysicalKey::SuperLeft => LogicalKey::Super,
        PhysicalKey::SuperRight => LogicalKey::Super,
        PhysicalKey::MediaPlayPause => LogicalKey::MediaPlayPause,
        PhysicalKey::MediaNextTrack => LogicalKey::MediaNextTrack,
        PhysicalKey::MediaPrevTrack => LogicalKey::MediaPrevTrack,
        PhysicalKey::MediaVolumeUp => LogicalKey::MediaVolumeUp,
        PhysicalKey::MediaVolumeDown => LogicalKey::MediaVolumeDown,
        PhysicalKey::MediaMute => LogicalKey::MediaMute,
        PhysicalKey::Compose => LogicalKey::Compose,
        PhysicalKey::Other(_) => LogicalKey::Unidentified,
    }
}

/// On the US QWERTY layout each letter key types its own letter, lower case, and its
/// capital while Shift is held; each digit key types its own digit without Shift.
pub proof fn law_us_letter_and_digit_keys_type_their_own_character()
    ensures
        us_qwerty_key(PhysicalKey::KeyA, false) == LogicalKey::Character('a'),
        us_qwerty_key(PhysicalKey::KeyA, true) == LogicalKey::Character('A'),
        us_qwerty_key(PhysicalKey::KeyB, false) == LogicalKey::Character('b'),
        us_qwerty_key(PhysicalKey::KeyB, true) == LogicalKey::Character('B'),
        us_qwerty_key(PhysicalKey::KeyC, false) == LogicalKey::Character('c'),
        us_qwerty_key(PhysicalKey::KeyC, true) == LogicalKey::Character('C'),
        us_qwerty_key(PhysicalKey::KeyD, false) == LogicalKey::Character('d'),
        us_qwerty_key(PhysicalKey::KeyD, true) == LogicalKey::Character('D'),
        us_qwerty_key(PhysicalKey::KeyE, false) == LogicalKey::Character('e'),
        us_qwerty_key(PhysicalKey::KeyE, true) == LogicalKey::Character('E'),
        us_qwerty_key(PhysicalKey::KeyF, false) == LogicalKey::Character('f'),
        us_qwerty_key(PhysicalKey::KeyF, true) == LogicalKey::Character('F'),
        us_qwerty_key(PhysicalKey::KeyG, false) == LogicalKey::Character('g'),
        us_qwerty_key(PhysicalKey::KeyG, true) == LogicalKey::Character('G'),
        us_qwerty_key(PhysicalKey::KeyH, false) == LogicalKey::Character('h'),
        us_qwerty_key(PhysicalKey::KeyH, true) == LogicalKey::Character('H'),
        us_qwerty_key(PhysicalKey::KeyI, false) == LogicalKey::Character('i'),
        us_qwerty_key(PhysicalKey::KeyI, true) == LogicalKey::Character('I'),
        us_qwerty_key(PhysicalKey::KeyJ, false) == LogicalKey::Character('j'),
        us_qwerty_key(PhysicalKey::KeyJ, true) == LogicalKey::Character('J'),
        us_qwerty_key(PhysicalKey::KeyK, false) == LogicalKey::Character('k'),
        us_qwerty_key(PhysicalKey::KeyK, true) == LogicalKey::Character('K'),
        us_qwerty_key(PhysicalKey::KeyL, false) == LogicalKey::Character('l'),
        us_qwerty_key(PhysicalKey::KeyL, true) == LogicalKey::Character('L'),
        us_qwerty_key(PhysicalKey::KeyM, false) == LogicalKey::Character('m'),
        us_qwerty_key(PhysicalKey::KeyM, true) == LogicalKey::Character('M'),
        us_qwerty_key(PhysicalKey::KeyN, false) == LogicalKey::Character('n'),
        us_qwerty_key(PhysicalKey::KeyN, true) == LogicalKey::Character('N'),
        us_qwerty_key(PhysicalKey::KeyO, false) == LogicalKey::Character('o'),
        us_qwerty_key(PhysicalKey::KeyO, true) == LogicalKey::Character('O'),
        us_qwerty_key(PhysicalKey::KeyP, false) == LogicalKey::Character('p'),
        us_qwerty_key(PhysicalKey::KeyP, true) == LogicalKey::Character('P'),
        us_qwerty_key(PhysicalKey::KeyQ, false) == LogicalKey::Character('q'),
        us_qwerty_key(PhysicalKey::KeyQ, true) == LogicalKey::Character('Q'),
        us_qwerty_key(PhysicalKey::KeyR, false) == LogicalKey::Character('r'),
        us_qwerty_key(PhysicalKey::KeyR, true) == LogicalKey::Character('R'),
        us_qwerty_key(PhysicalKey::KeyS, false) == LogicalKey::Character('s'),
        us_qwerty_key(PhysicalKey::KeyS, true) == LogicalKey::Character('S'),
        us_qwerty_key(PhysicalKey::KeyT, false) == LogicalKey::Character('t'),
        us_qwerty_key(PhysicalKey::KeyT, true) == LogicalKey::Character('T'),
        us_qwerty_key(PhysicalKey::KeyU, false) == LogicalKey::Character('u'),
        us_qwerty_key(PhysicalKey::KeyU, true) == LogicalKey::Character('U'),
        us_qwerty_key(PhysicalKey::KeyV, false) == LogicalKey::Character('v'),
        us_qwerty_key(PhysicalKey::KeyV, true) == LogicalKey::Character('V'),
        us_qwerty_key(PhysicalKey::KeyW, false) == LogicalKey::Character('w'),
        us_qwerty_key(PhysicalKey::KeyW, true) == LogicalKey::Character('W'),
        us_qwerty_key(PhysicalKey::KeyX, false) == LogicalKey::Character('x'),
        us_qwerty_key(PhysicalKey::KeyX, true) == LogicalKey::Character('X'),
        us_qwerty_key(PhysicalKey::KeyY, false) == LogicalKey::Character('y'),
        us_qwerty_key(PhysicalKey::KeyY, true) == LogicalKey::Character('Y'),
        us_qwerty_key(PhysicalKey::KeyZ, false) == LogicalKey::Character('z'),
        us_qwerty_key(PhysicalKey::KeyZ, true) == LogicalKey::Character('Z'),
        us_qwerty_key(PhysicalKey::Digit1, false) == LogicalKey::Character('1'),
        us_qwerty_key(PhysicalKey::Digit2, false) == LogicalKey::Character('2'),
        us_qwerty_key(PhysicalKey::Digit3, false) == LogicalKey::Character('3'),
        us_qwerty_key(PhysicalKey::Digit4, false) == LogicalKey::Character('4'),
        us_qwerty_key(PhysicalKey::Digit5, false) == LogicalKey::Character('5'),
        us_qwerty_key(PhysicalKey::Digit6, false) == LogicalKey::Character('6'),
        us_qwerty_key(PhysicalKey::Digit7, false) == LogicalKey::Character('7'),
        us_qwerty_key(PhysicalKey::Digit8, false) == LogicalKey::Character('8'),
        us_qwerty_key(PhysicalKey::Digit9, false) == LogicalKey::Character('9'),
        us_qwerty_key(PhysicalKey::Digit0, false) == LogicalKey::Character('0'),
{
}

/// On the US QWERTY layout Shift turns every lower-case letter a key types into the
/// capital of that same letter, and every key that types text types a printable ASCII
/// character.
pub proof fn law_us_shift_gives_capitals(key: PhysicalKey)
    ensures
        us_qwerty_key(key, false) matches LogicalKey::Character(c) ==> ('a' <= c <= 'z' ==> us_qwerty_key(key, true)
            == LogicalKey::Character(((c as u32) - 32) as char)),
        us_qwerty_key(key, false) matches LogicalKey::Character(c) ==> ' ' <= c <= '~',
        us_qwerty_key(key, true) matches LogicalKey::Character(c) ==> ' ' <= c <= '~',
{
}

#[derive(Debug, Clone, Copy, PartialEq, Eq, Default)]
pub struct UsQwertyLayout;

/// `char::to_string`: the one-character string holding `c`.
#[verifier::external_body]
fn char_text(c: char) -> (s: String)
    ensures
        s@ == seq![c],
{
    c.to_string()
}

impl KeyboardLayout for UsQwertyLayout {
    open spec fn spec_map(&self, key: PhysicalKey, modifiers: Modifiers) -> LogicalKey {
        us_qwerty_key(key, modifiers.shift)
    }

    /// Only character keys produce text, and it is exactly their character.
    open spec fn spec_text_for(&self, key: LogicalKey, modifiers: Modifiers) -> Option<Seq<char>> {
        match key {
            LogicalKey::Character(c) => Some(seq![c]),
            _ => None,
        }
    }

    fn map(&self, key: PhysicalKey, modifiers: Modifiers) -> (r: LogicalKey) {
        let shift = modifiers.shift;
        match key {
        PhysicalKey::KeyA => LogicalKey::Character(if shift { 'A' } else { 'a' }),
        PhysicalKey::KeyB => LogicalKey::Character(if shift { 'B' } else { 'b' }),
        PhysicalKey::KeyC => LogicalKey::Character(if shift { 'C' } else { 'c' }),
        PhysicalKey::KeyD => LogicalKey::Character(if shift { 'D' } else { 'd' }),
        PhysicalKey::KeyE => LogicalKey::Character(if shift { 'E' } else { 'e' }),
        PhysicalKey::KeyF => LogicalKey::Character(if shift { 'F' } else { 'f' }),
        PhysicalKey::KeyG => LogicalKey::Character(if shift { 'G' } else { 'g' }),
        PhysicalKey::KeyH => LogicalKey::Character(if shift { 'H' } else { 'h' }),
        PhysicalKey::KeyI => LogicalKey::Character(if shift { 'I' } else { 'i' }),
        PhysicalKey::KeyJ => LogicalKey::Character(if shift { 'J' } else { 'j' }),
        PhysicalKey::KeyK => LogicalKey::Character(if shift { 'K' } else { 'k' }),
        PhysicalKey::KeyL => LogicalKey::Character(if shift { 'L' } else { 'l' }),
        PhysicalKey::KeyM => LogicalKey::Character(if shift { 'M' } else { 'm' }),
        PhysicalKey::KeyN => LogicalKey::Character(if shift { 'N' } else { 'n' }),
        PhysicalKey::KeyO => LogicalKey::Character(if shift { 'O' } else { 'o' }),
        PhysicalKey::KeyP => LogicalKey::Character(if shift { 'P' } else { 'p' }),
        PhysicalKey::KeyQ => LogicalKey::Character(if shift { 'Q' } else { 'q' }),
        PhysicalKey::KeyR => LogicalKey::Character(if shift { 'R' } else { 'r' }),
        PhysicalKey::KeyS => LogicalKey::Character(if shift { 'S' } else { 's' }),
        PhysicalKey::KeyT => LogicalKey::Character(if shift { 'T' } else { 't' }),
        PhysicalKey::KeyU => LogicalKey::Character(if shift { 'U' } else { 'u' }),
        PhysicalKey::KeyV => LogicalKey::Character(if shift { 'V' } else { 'v' }),
        PhysicalKey::KeyW => LogicalKey::Character(if shift { 'W' } else { 'w' }),
        PhysicalKey::KeyX => LogicalKey::Character(if shift { 'X' } else { 'x' }),
        PhysicalKey::KeyY => LogicalKey::Character(if shift { 'Y' } else { 'y' }),
        PhysicalKey::KeyZ => LogicalKey::Character(if shift { 'Z' } else { 'z' }),
        PhysicalKey::Digit1 => LogicalKey::Character(if shift { '!' } else { '1' }),
        PhysicalKey::Digit2 => LogicalKey::Character(if shift { '@' } else { '2' }),
        PhysicalKey::Digit3 => LogicalKey::Character(if shift { '#' } else { '3' }),
        PhysicalKey::Digit4 => LogicalKey::Character(if shift { '$' } else { '4' }),
        PhysicalKey::Digit5 => LogicalKey::Character(if shift { '%' } else { '5' }),
        PhysicalKey::Digit6 => LogicalKey::Character(if shift { '^' } else { '6' }),
        PhysicalKey::Digit7 => LogicalKey::Character(if shift { '&' } else { '7' }),
        PhysicalKey::Digit8 => LogicalKey::Character(if shift { '*' } else { '8' }),
        PhysicalKey::Digit9 => LogicalKey::Character(if shift { '(' } else { '9' }),
        PhysicalKey::Digit0 => LogicalKey::Character(if shift { ')' } else { '0' }),
        PhysicalKey::Space => LogicalKey::Character(' '),
        PhysicalKey::Minus => LogicalKey::Character(if shift { '_' } else { '-' }),
        PhysicalKey::Equal => LogicalKey::Character(if shift { '+' } else { '=' }),
        PhysicalKey::BracketLeft => LogicalKey::Character(if shift { '{' } else { '[' }),
        PhysicalKey::BracketRight => LogicalKey::Character(if shift { '}' } else { ']' }),
        PhysicalKey::Backslash => LogicalKey::Character(if shift { '|' } else { '\\' }),
        PhysicalKey::Semicolon => LogicalKey::Character(if shift { ':' } else { ';' }),
        PhysicalKey::Quote => LogicalKey::Character(if shift { '"' } else { '\'' }),
        PhysicalKey::Grave => LogicalKey::Character(if shift { '~' } else { '`' }),
        PhysicalKey::Comma => LogicalKey::Character(if shift { '<' } else { ',' }),
        PhysicalKey::Period => LogicalKey::Character(if shift { '>' } else { '.' }),
        PhysicalKey::Slash => LogicalKey::Character(if shift { '?' } else { '/' }),
        PhysicalKey::Enter => LogicalKey::Enter,
        PhysicalKey::Escape => LogicalKey::Escape,
        PhysicalKey::Backspace => LogicalKey::Backspace,
        PhysicalKey::Tab => LogicalKey::Tab,
        PhysicalKey::CapsLock => LogicalKey::CapsLock,
        PhysicalKey::ScrollLock => LogicalKey::ScrollLock,
        PhysicalKey::NumLock => LogicalKey::NumLock,
        PhysicalKey::F1 => LogicalKey::F(1),
        PhysicalKey::F2 => LogicalKey::F(2),
        PhysicalKey::F3 => LogicalKey::F(3),
        PhysicalKey::F4 => LogicalKey::F(4),
        PhysicalKey::F5 => LogicalKey::F(5),
        PhysicalKey::F6 => LogicalKey::F(6),
        PhysicalKey::F7 => LogicalKey::F(7),
        PhysicalKey::F8 => LogicalKey::F(8),
        PhysicalKey::F9 => LogicalKey::F(9),
        PhysicalKey::F10 => LogicalKey::F(10),
        PhysicalKey::F11 => LogicalKey::F(11),
        PhysicalKey::F12 => LogicalKey::F(12),
        PhysicalKey::PrintScreen => LogicalKey::PrintScreen,
        PhysicalKey::Pause => LogicalKey::Pause,
        PhysicalKey::Insert => LogicalKey::Insert,
        PhysicalKey::Home => LogicalKey::Home,
        PhysicalKey::PageUp => LogicalKey::PageUp,
        PhysicalKey::Delete => LogicalKey::Delete,
        PhysicalKey::End => LogicalKey::End,
        PhysicalKey::PageDown => LogicalKey::PageDown,
        PhysicalKey::ArrowRight => LogicalKey::ArrowRight,
        PhysicalKey::ArrowLeft => LogicalKey::ArrowLeft,
        PhysicalKey::ArrowDown => LogicalKey::ArrowDown,
        PhysicalKey::ArrowUp => LogicalKey::ArrowUp,
        PhysicalKey::ControlLeft => LogicalKey::Control,
        PhysicalKey::ControlRight => LogicalKey::Control,
        PhysicalKey::ShiftLeft => LogicalKey::Shift,
        PhysicalKey::ShiftRight => LogicalKey::Shift,
        PhysicalKey::AltLeft => LogicalKey::Alt,
        PhysicalKey::AltRight => LogicalKey::Alt,
        PhysicalKey::SuperLeft => LogicalKey::Super,
        PhysicalKey::SuperRight => LogicalKey::Super,
        PhysicalKey::MediaPlayPause => LogicalKey::MediaPlayPause,
        PhysicalKey::MediaNextTrack => LogicalKey::MediaNextTrack,
        PhysicalKey::MediaPrevTrack => LogicalKey::MediaPrevTrack,
        PhysicalKey::MediaVolumeUp => LogicalKey::MediaVolumeUp,
        PhysicalKey::MediaVolumeDown => LogicalKey::MediaVolumeDown,
        PhysicalKey::MediaMute => LogicalKey::MediaMute,
        PhysicalKey::Compose => LogicalKey::Compose,
        PhysicalKey::Other(_) => LogicalKey::Unidentified,
        }
    }

    fn text_for(&self, key: LogicalKey, modifiers: Modifiers) -> (r: Option<String>) {
        match key {
            LogicalKey::Character(c) => Some(char_text(c)),
            _ => None,
        }
    }
}

} // verus!
