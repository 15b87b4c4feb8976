use crate::ids::InputDeviceId;
use vstd::prelude::*;

verus! {

#[derive(Debug, Clone, Copy, PartialEq, Eq, Hash, Structural)]
pub enum InputDeviceClass {
    Keyboard,
    Pointer,
    Touchscreen,
    Tablet,
    Gamepad,
    Unknown,
}

/// What a device can produce, independent of how the backend detected it. Consumers
/// branch on capabilities, never on device class or backend-specific identifiers.
#[derive(Debug, Clone, Copy, PartialEq, Eq, Hash, Structural)]
pub struct InputDeviceCapabilities {
    pub keys: bool,
    pub pointer_relative: bool,
    pub pointer_absolute: bool,
    pub scroll: bool,
    pub scroll_high_resolution: bool,
    pub touch: bool,
    pub max_touch_contacts: u32,
    pub tablet: bool,
    pub gamepad: bool,
}

impl InputDeviceCapabilities {
    pub open spec fn spec_empty() -> InputDeviceCapabilities {
        InputDeviceCapabilities {
            keys: false,
            pointer_relative: false,
            pointer_absolute: false,
            scroll: false,
            scroll_high_resolution: false,
            touch: false,
            max_touch_contacts: 0,
            tablet: false,
            gamepad: false,
        }
    }

    /// A keyboard: keys and nothing else.
    pub fn keyboard() -> (c: InputDeviceCapabilities)
        ensures
            c == (InputDeviceCapabilities { keys: true, ..InputDeviceCapabilities::spec_empty() }),
    {
        InputDeviceCapabilities { keys: true, ..InputDeviceCapabilities::empty() }
    }

    /// A mouse: relative motion and scrolling.
    pub fn mouse() -> (c: InputDeviceCapabilities)
        ensures
            c == (InputDeviceCapabilities {
                pointer_relative: true,
                scroll: true,
                ..InputDeviceCapabilities::spec_empty()
            }),
    {
        InputDeviceCapabilities { pointer_relative: true, scroll: true, ..InputDeviceCapabilities::empty() }
    }

    /// A touchscreen: absolute positions and up to `max_contacts` touch contacts.
    pub fn touchscreen(max_contacts: u32) -> (c: InputDeviceCapabilities)
        ensures
            c == (InputDeviceCapabilities {
                pointer_absolute: true,
                touch: true,
                max_touch_contacts: max_contacts,
                ..InputDeviceCapabilities::spec_empty()
            }),
    {
        InputDeviceCapabilities {
            pointer_absolute: true,
            touch: true,
            max_touch_contacts: max_contacts,
            ..InputDeviceCapabilities::empty()
        }
    }

    /// No capability at all.
    pub fn empty() -> (c: InputDeviceCapabilities)
        ensures
            c == InputDeviceCapabilities::spec_empty(),
    {
        InputDeviceCapabilities {
            keys: false,
            pointer_relative: false,
            pointer_absolute: false,
            scroll: false,
            scroll_high_resolution: false,
            touch: false,
            max_touch_contacts: 0,
            tablet: false,
            gamepad: false,
        }
    }
}

impl Default for InputDeviceCapabilities {
    fn default() -> (c: InputDeviceCapabilities)
        ensures
            c == InputDeviceCapabilities::spec_empty(),
    {
        InputDeviceCapabilities::empty()
    }
}

#[derive(Debug, Clone, Copy, PartialEq, Eq, Hash, Structural)]
pub enum ConnectionState {
    Connected,
    Disconnected,
}

/// Backend-specific key/value detail, kept only for diagnostics and never interpreted
/// by consumers. Each key occurs at most once.
#[derive(Debug, PartialEq, Eq)]
pub struct BackendMetadata(Vec<(String, String)>);

impl View for BackendMetadata {
    type V = Map<Seq<char>, Seq<char>>;

    closed spec fn view(&self) -> Map<Seq<char>, Seq<char>> {
        Map::new(
            |k: Seq<char>| exists|i: int| 0 <= i < self.0@.len() && #[trigger] self.0@[i].0@ == k,
            |k: Seq<char>| self.0@[choose|i: int| 0 <= i < self.0@.len() && #[trigger] self.0@[i].0@ == k].1@,
        )
    }
}

impl BackendMetadata {
    pub closed spec fn wf(&self) -> bool {
        forall|i: int, j: int| 0 <= i < j < self.0@.len() ==> #[trigger] self.0@[i].0@ != #[trigger] self.0@[j].0@
    }

    pub closed spec fn pairs(&self) -> Seq<(String, String)> {
        self.0@
    }

    pub fn new() -> (m: BackendMetadata)
        ensures
            m.wf(),
            m@ == Map::<Seq<char>, Seq<char>>::empty(),
    {
        let m = BackendMetadata(Vec::new());
        proof {
            assert(m@ =~= Map::<Seq<char>, Seq<char>>::empty());
        }
        m
    }

    /// The same metadata with `key` set to `value` (replacing an earlier value).
    pub fn insert(self, key: &str, value: &str) -> (m: BackendMetadata)
        requires
            self.wf(),
        ensures
            m.wf(),
            m@ == self@.insert(key@, value@),
            self@.dom().finite(),
            m@.dom().finite(),
            m@.len() == self@.len() + if self@.contains_key(key@) {
                0int
            } else {
                1int
            },
    {
        proof {
            self.lemma_dom_len();
        }
        let key_s = String::from_str(key);
        let value_s = String::from_str(value);
        let ghost me = self;
        let mut pairs = self.0;
        let ghost old_pairs = pairs@;
        let mut i: usize = 0;
        while i < pairs.len()
            invariant
                pairs@ == old_pairs,
                key_s@ == key@,
                0 <= i <= pairs@.len(),
                forall|j: int| 0 <= j < i ==> pairs@[j].0@ != key@,
            ensures
                pairs@ == old_pairs,
                0 <= i <= pairs@.len(),
                forall|j: int| 0 <= j < i ==> pairs@[j].0@ != key@,
                i < pairs@.len() ==> pairs@[i as int].0@ == key@,
            decreases pairs@.len() - i,
        {
            if pairs[i].0 == key_s {
                break;
            }
            i = i + 1;
        }
        let ghost new_pair = (key_s, value_s);
        if i < pairs.len() {
            pairs.set(i, (key_s, value_s));
            proof {
                assert(pairs@ == old_pairs.update(i as int, new_pair));
            }
        } else {
            pairs.push((key_s, value_s));
            proof {
                assert(!me@.contains_key(key@));
            }
        }
        let m = BackendMetadata(pairs);
        proof {
            assert(m.0@[i as int].0@ == key@);
            assert(m.0@[i as int].1@ == value@);
            assert(forall|a: int| 0 <= a < m.0@.len() && a != i ==> m.0@[a] == old_pairs[a]);
            assert forall|a: int, b: int| 0 <= a < b < m.0@.len() implies #[trigger] m.0@[a].0@ != #[trigger] m.0@[b].0@ by {
                if b == i {
                    assert(m.0@[a] == old_pairs[a]);
                } else if a == i {
                    assert(m.0@[b] == old_pairs[b]);
                    if i < old_pairs.len() {
                        assert(old_pairs[a].0@ != old_pairs[b].0@);
                    }
                } else {
                    assert(m.0@[a] == old_pairs[a]);
                    assert(m.0@[b] == old_pairs[b]);
                }
            }
            assert forall|k: Seq<char>| #[trigger] m@.contains_key(k) <==> me@.insert(key@, value@).contains_key(k) by {
                if m@.contains_key(k) {
                    let a = choose|a: int| 0 <= a < m.0@.len() && #[trigger] m.0@[a].0@ == k;
                    if a != i {
                        assert(old_pairs[a].0@ == k);
                        assert(me@.contains_key(k));
                    }
                }
                if me@.contains_key(k) && k != key@ {
                    let a = choose|a: int| 0 <= a < old_pairs.len() && #[trigger] old_pairs[a].0@ == k;
                    assert(a != i);
                    assert(m.0@[a].0@ == k);
                }
            }
            assert forall|k: Seq<char>| #[trigger] m@.contains_key(k) implies m@[k] == me@.insert(key@, value@)[k] by {
                let a = choose|a: int| 0 <= a < m.0@.len() && #[trigger] m.0@[a].0@ == k;
                if k == key@ {
                    if a != i {
                        if a < i {
                            assert(m.0@[a].0@ != m.0@[i as int].0@);
                        } else {
                            assert(m.0@[i as int].0@ != m.0@[a].0@);
                        }
                    }
                } else {
                    assert(a != i);
                    assert(old_pairs[a].0@ == k);
                    assert(me@.contains_key(k));
                    let a2 = choose|a2: int| 0 <= a2 < old_pairs.len() && #[trigger] old_pairs[a2].0@ == k;
                    if a2 != a {
                        if a2 < a {
                            assert(old_pairs[a2].0@ != old_pairs[a].0@);
                        } else {
                            assert(old_pairs[a].0@ != old_pairs[a2].0@);
                        }
                    }
                }
            }
            assert(m@ =~= me@.insert(key@, value@));
        }
        m
    }

    /// The value stored for `key`, if any.
    pub fn get(&self, key: &str) -> (r: Option<&String>)
        requires
            self.wf(),
        ensures
            r is None <==> !self@.contains_key(key@),
            r matches Some(v) ==> v@ == self@[key@],
    {
        let key_s = String::from_str(key);
        let mut i: usize = 0;
        while i < self.0.len()
            invariant
                self.wf(),
                key_s@ == key@,
                0 <= i <= self.0@.len(),
                forall|j: int| 0 <= j < i ==> self.0@[j].0@ != key@,
            decreases self.0@.len() - i,
        {
            if self.0[i].0 == key_s {
                proof {
                    let a = choose|a: int| 0 <= a < self.0@.len() && #[trigger] self.0@[a].0@ == key@;
                    if a != i {
                        if a < i {
                            assert(self.0@[a].0@ != self.0@[i as int].0@);
                        } else {
                            assert(self.0@[i as int].0@ != self.0@[a].0@);
                        }
                    }
                }
                return Some(&self.0[i].1);
            }
            i = i + 1;
        }
        None
    }

    /// The number of keys.
    pub fn len(&self) -> (n: usize)
        requires
            self.wf(),
        ensures
            n == self@.dom().len(),
            self@.dom().finite(),
    {
        proof {
            self.lemma_dom_len();
        }
        self.0.len()
    }

    proof fn lemma_dom_len(&self)
        requires
            self.wf(),
        ensures
            self@.dom().finite(),
            self@.dom().len() == self.0@.len(),
    {
        let keys = self.0@.map_values(|p: (String, String)| p.0@);
        assert(keys.no_duplicates()) by {
            assert forall|a: int, b: int| 0 <= a < keys.len() && 0 <= b < keys.len() && a != b implies keys[a] != keys[b] by {
                if a < b {
                    assert(self.0@[a].0@ != self.0@[b].0@);
                } else {
                    assert(self.0@[b].0@ != self.0@[a].0@);
                }
            }
        }
        assert(self@.dom() =~= keys.to_set()) by {
            assert forall|k: Seq<char>| #[trigger] self@.dom().contains(k) <==> keys.to_set().contains(k) by {
                if self@.dom().contains(k) {
                    let a = choose|a: int| 0 <= a < self.0@.len() && #[trigger] self.0@[a].0@ == k;
                    assert(keys[a] == k);
                }
                if keys.to_set().contains(k) {
                    let a = choose|a: int| 0 <= a < keys.len() && keys[a] == k;
                    assert(self.0@[a].0@ == k);
                }
            }
        }
        keys.unique_seq_to_set();
    }

    pub fn duplicate(&self) -> (r: BackendMetadata)
        ensures
            r.pairs() == self.pairs(),
            r@ == self@,
            r.wf() == self.wf(),
    {
        let mut out: Vec<(String, String)> = Vec::new();
        let mut i: usize = 0;
        while i < self.0.len()
            invariant
                0 <= i <= self.0@.len(),
                out@ == self.0@.take(i as int),
            decreases self.0@.len() - i,
        {
            let k = self.0[i].0.clone();
            let v = self.0[i].1.clone();
            out.push((k, v));
            proof {
                assert(self.0@.take(i + 1) =~= self.0@.take(i as int).push(self.0@[i as int]));
            }
            i = i + 1;
        }
        proof {
            assert(out@ =~= self.0@);
        }
        BackendMetadata(out)
    }
}

impl Default for BackendMetadata {
    fn default() -> (m: BackendMetadata)
        ensures
            m.wf(),
            m@ == Map::<Seq<char>, Seq<char>>::empty(),
    {
        BackendMetadata::new()
    }
}

impl Clone for BackendMetadata {
    fn clone(&self) -> (r: BackendMetadata)
        ensures
            r@ == self@,
            r.wf() == self.wf(),
    {
        self.duplicate()
    }
}

/// The canonical, device-agnostic representation of an input device.
#[derive(Debug, PartialEq, Eq)]
pub struct InputDevice {
    pub id: InputDeviceId,
    pub name: String,
    pub vendor: Option<u16>,
    pub product: Option<u16>,
    pub class: InputDeviceClass,
    pub capabilities: InputDeviceCapabilities,
    pub connection_state: ConnectionState,
    pub physical_path: Option<String>,
    pub backend_metadata: BackendMetadata,
}

/// The abstract value of an [`InputDevice`]: strings as character sequences and
/// the backend metadata as a map.
pub struct InputDeviceView {
    pub id: InputDeviceId,
    pub name: Seq<char>,
    pub vendor: Option<u16>,
    pub product: Option<u16>,
    pub class: InputDeviceClass,
    pub capabilities: InputDeviceCapabilities,
    pub connection_state: ConnectionState,
    pub physical_path: Option<Seq<char>>,
    pub backend_metadata: Map<Seq<char>, Seq<char>>,
}

impl View for InputDevice {
    type V = InputDeviceView;

    open spec fn view(&self) -> InputDeviceView {
        InputDeviceView {
            id: self.id,
            name: self.name@,
            vendor: self.vendor,
            product: self.product,
            class: self.class,
            capabilities: self.capabilities,
            connection_state: self.connection_state,
            physical_path: match self.physical_path {
                Some(p) => Some(p@),
                None => None,
            },
            backend_metadata: self.backend_metadata@,
        }
    }
}

impl InputDevice {
    /// The device's metadata has each key at most once.
    pub open spec fn wf(&self) -> bool {
        self.backend_metadata.wf()
    }

    /// Asks `predicate` about this device's capabilities.
    pub fn supports<F: Fn(&InputDeviceCapabilities) -> bool>(&self, predicate: F) -> (b: bool)
        requires
            predicate.requires((&self.capabilities,)),
        ensures
            predicate.ensures((&self.capabilities,), b),
    {
        predicate(&self.capabilities)
    }

    /// An identical copy of this device.
    pub fn duplicate(&self) -> (r: InputDevice)
        ensures
            r@ == self@,
            r.wf() == self.wf(),
    {
        InputDevice {
            id: self.id,
            name: self.name.clone(),
            vendor: self.vendor,
            product: self.product,
            class: self.class,
            capabilities: self.capabilities,
            connection_state: self.connection_state,
            physical_path: match &self.physical_path {
                Some(p) => Some(p.clone()),
                None => None,
            },
            backend_metadata: self.backend_metadata.duplicate(),
        }
    }
}

impl Clone for InputDevice {
    fn clone(&self) -> (r: InputDevice)
        ensures
            r@ == self@,
            r.wf() == self.wf(),
    {
        self.duplicate()
    }
}

} // verus!
