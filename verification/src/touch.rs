use crate::id_map::{ExactKey, IdMap};
use crate::ids::InputDeviceId;
use crate::pointer::NormalizedPosition;
use vstd::prelude::*;

verus! {

/// Identifies one finger for the duration of its contact with the surface, stable
/// from `TouchPhase::Down` to its matching `Up`/`Cancel`.
#[derive(Debug, Clone, Copy, PartialEq, Eq, Hash, Structural)]
pub struct ContactId(pub u32);

impl ExactKey for ContactId {
    fn same_key(&self, other: &Self) -> (b: bool) {
        self.0 == other.0
    }
}

#[derive(Debug, Clone, Copy, PartialEq, Eq, Hash, Structural)]
pub enum TouchPhase {
    Down,
    Move,
    Up,
    /// The contact was invalidated by the system (e.g. palm rejection) rather than
    /// lifted; state cleanup treats it like `Up`.
    Cancel,
}

/// One touch sample. `pressure` and `size` are IEEE-754 bit patterns
/// (`f32::to_bits`) of the readings, carried unchanged.
#[derive(Debug, Clone, Copy, PartialEq, Eq, Hash)]
pub struct TouchEvent {
    pub contact_id: ContactId,
    pub phase: TouchPhase,
    pub position: NormalizedPosition,
    pub pressure: Option<u32>,
    pub size: Option<(u32, u32)>,
}

/// The last known data of one live contact.
#[derive(Debug, Clone, Copy, PartialEq, Eq, Hash)]
pub struct TouchContact {
    pub position: NormalizedPosition,
    pub pressure: Option<u32>,
    pub size: Option<(u32, u32)>,
}

/// The live contacts after `event`: a down or move sets the contact's data, an up or
/// cancel ends the contact; no other contact is touched.
pub open spec fn apply_touch(contacts: Map<ContactId, TouchContact>, event: TouchEvent) -> Map<ContactId, TouchContact> {
    match event.phase {
        TouchPhase::Down | TouchPhase::Move => contacts.insert(
            event.contact_id,
            TouchContact { position: event.position, pressure: event.pressure, size: event.size },
        ),
        TouchPhase::Up | TouchPhase::Cancel => contacts.remove(event.contact_id),
    }
}

/// Every live contact on one touch-capable device, keyed by contact id.
pub struct TouchState {
    contacts: IdMap<ContactId, TouchContact>,
}

impl View for TouchState {
    type V = Map<ContactId, TouchContact>;

    closed spec fn view(&self) -> Map<ContactId, TouchContact> {
        self.contacts@
    }
}

impl TouchState {
    pub closed spec fn wf(&self) -> bool {
        self.contacts.wf()
    }

    pub fn new() -> (s: TouchState)
        ensures
            s.wf(),
            s@ == Map::<ContactId, TouchContact>::empty(),
    {
        TouchState { contacts: IdMap::new() }
    }

    /// The live contacts, each exactly once.
    pub fn active_contacts(&self) -> (r: Vec<(ContactId, TouchContact)>)
        requires
            self.wf(),
        ensures
            r@.len() == self@.len(),
            forall|i: int| 0 <= i < r@.len() ==> #[trigger] self@.contains_key(r@[i].0) && self@[r@[i].0] == r@[i].1,
            forall|i: int, j: int| 0 <= i < j < r@.len() ==> #[trigger] r@[i].0 != #[trigger] r@[j].0,
    {
        let n = self.contacts.len();
        let mut out: Vec<(ContactId, TouchContact)> = Vec::new();
        proof {
            self.contacts.lemma_entries_list_map();
        }
        let mut i: usize = 0;
        while i < n
            invariant
                self.wf(),
                n == self.contacts.entries().len(),
                0 <= i <= n,
                out@ == self.contacts.entries().take(i as int),
            decreases n - i,
        {
            let k = self.contacts.key_at(i);
            let v = *self.contacts.value_at(i);
            out.push((k, v));
            proof {
                assert(self.contacts.entries().take(i + 1) =~= self.contacts.entries().take(i as int).push((k, v)));
            }
            i = i + 1;
        }
        proof {
            assert(out@ =~= self.contacts.entries());
            self.contacts.lemma_entries_list_map();
        }
        out
    }

    pub fn contact_count(&self) -> (n: usize)
        requires
            self.wf(),
        ensures
            n == self@.len(),
            self@.dom().finite(),
    {
        proof {
            self.contacts.lemma_entries_list_map();
        }
        self.contacts.len()
    }

    pub fn contact(&self, id: ContactId) -> (r: Option<TouchContact>)
        requires
            self.wf(),
        ensures
            r is None <==> !self@.contains_key(id),
            r matches Some(c) ==> c == self@[id],
    {
        match self.contacts.get(id) {
            Some(c) => Some(*c),
            None => None,
        }
    }

    pub fn apply(&mut self, event: &TouchEvent)
        requires
            old(self).wf(),
        ensures
            final(self).wf(),
            final(self)@ == apply_touch(old(self)@, *event),
            old(self)@.dom().finite(),
            final(self)@.dom().finite(),
            final(self)@.len() == match event.phase {
                TouchPhase::Down | TouchPhase::Move => old(self)@.len() + if old(self)@.contains_key(event.contact_id) {
                    0int
                } else {
                    1int
                },
                TouchPhase::Up | TouchPhase::Cancel => old(self)@.len() - if old(self)@.contains_key(event.contact_id) {
                    1int
                } else {
                    0int
                },
            },
    {
        proof {
            self.contacts.lemma_entries_list_map();
        }
        match event.phase {
            TouchPhase::Down | TouchPhase::Move => {
                self.contacts.insert(
                    event.contact_id,
                    TouchContact { position: event.position, pressure: event.pressure, size: event.size },
                );
            },
            TouchPhase::Up | TouchPhase::Cancel => {
                let _ = self.contacts.take(event.contact_id);
            },
        }
    }
}

/// The contacts of `device`, or none if it has no entry yet.
pub open spec fn contacts_or_none(table: Map<InputDeviceId, Map<ContactId, TouchContact>>, device: InputDeviceId) -> Map<ContactId, TouchContact> {
    if table.contains_key(device) {
        table[device]
    } else {
        Map::empty()
    }
}

/// Per-device touch state.
pub struct TouchStateTable {
    states: IdMap<InputDeviceId, TouchState>,
}

impl View for TouchStateTable {
    type V = Map<InputDeviceId, Map<ContactId, TouchContact>>;

    closed spec fn view(&self) -> Map<InputDeviceId, Map<ContactId, TouchContact>> {
        self.states@.map_values(|s: TouchState| s@)
    }
}

impl TouchStateTable {
    pub closed spec fn wf(&self) -> bool {
        &&& self.states.wf()
        &&& forall|d: InputDeviceId| #[trigger] self.states@.contains_key(d) ==> self.states@[d].wf()
    }

    pub fn new() -> (t: TouchStateTable)
        ensures
            t.wf(),
            t@ == Map::<InputDeviceId, Map<ContactId, TouchContact>>::empty(),
    {
        let t = TouchStateTable { states: IdMap::new() };
        proof {
            assert(t@ =~= Map::<InputDeviceId, Map<ContactId, TouchContact>>::empty());
        }
        t
    }

    /// Applies `event` to `device`'s contacts (creating its entry if needed).
    pub fn apply(&mut self, device: InputDeviceId, event: &TouchEvent)
        requires
            old(self).wf(),
        ensures
            final(self).wf(),
            final(self)@ == old(self)@.insert(device, apply_touch(contacts_or_none(old(self)@, device), *event)),
    {
        let mut s = match self.states.take(device) {
            Some(s) => s,
            None => TouchState::new(),
        };
        s.apply(event);
        self.states.insert(device, s);
        proof {
            assert(self@ =~= old(self)@.insert(device, s@));
        }
    }

    /// The touch state of `device`, if it has an entry.
    pub fn state(&self, device: InputDeviceId) -> (r: Option<&TouchState>)
        requires
            self.wf(),
        ensures
            r is None <==> !self@.contains_key(device),
            r matches Some(s) ==> s@ == self@[device] && s.wf(),
    {
        self.states.get(device)
    }

    /// Forgets everything about `device`.
    pub fn remove(&mut self, device: InputDeviceId)
        requires
            old(self).wf(),
        ensures
            final(self).wf(),
            final(self)@ == old(self)@.remove(device),
    {
        let _ = self.states.take(device);
        proof {
            assert(self@ =~= old(self)@.remove(device));
        }
    }
}


/// Multi-touch: lifting (or cancelling) one contact leaves every other contact as it
/// was; a cancel cleans up exactly like a lift; a move of a live contact updates it
/// without changing the number of contacts; contacts put down under distinct ids are
/// tracked independently.
pub proof fn law_contacts_are_independent(contacts: Map<ContactId, TouchContact>, event: TouchEvent, other: ContactId)
    requires
        contacts.dom().finite(),
        other != event.contact_id,
    ensures
        apply_touch(contacts, event).contains_key(other) == contacts.contains_key(other),
        contacts.contains_key(other) ==> apply_touch(contacts, event)[other] == contacts[other],
        event.phase == TouchPhase::Cancel ==> apply_touch(contacts, event) == apply_touch(
            contacts,
            TouchEvent { phase: TouchPhase::Up, ..event },
        ),
        (event.phase == TouchPhase::Up || event.phase == TouchPhase::Cancel) ==> !apply_touch(contacts, event).contains_key(event.contact_id),
        (event.phase == TouchPhase::Down || event.phase == TouchPhase::Move) ==> apply_touch(contacts, event)[event.contact_id] == (TouchContact {
            position: event.position,
            pressure: event.pressure,
            size: event.size,
        }),
        event.phase == TouchPhase::Move && contacts.contains_key(event.contact_id) ==> apply_touch(contacts, event).len()
            == contacts.len(),
{
    if event.phase == TouchPhase::Move && contacts.contains_key(event.contact_id) {
        assert(apply_touch(contacts, event).dom() =~= contacts.dom());
    }
}
} // verus!
