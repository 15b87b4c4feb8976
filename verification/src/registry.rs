use crate::device::{ConnectionState, InputDevice, InputDeviceView};
use crate::error::{Error, Result};
use crate::id_map::IdMap;
use crate::ids::{uuid_text, InputDeviceId};
use vstd::prelude::*;

verus! {

/// The central device registry: the single source of truth for which devices exist.
/// Backends only report additions and removals.
pub struct DeviceRegistry {
    devices: IdMap<InputDeviceId, InputDevice>,
}

impl View for DeviceRegistry {
    type V = Map<InputDeviceId, InputDeviceView>;

    closed spec fn view(&self) -> Map<InputDeviceId, InputDeviceView> {
        self.devices@.map_values(|d: InputDevice| d@)
    }
}

impl DeviceRegistry {
    /// Every device is stored under its own id.
    pub closed spec fn wf(&self) -> bool {
        &&& self.devices.wf()
        &&& forall|id: InputDeviceId| #[trigger] self.devices@.contains_key(id) ==> self.devices@[id].id == id
    }

    /// The registry is a finite map from id to the device carrying that id: looking a
    /// device up by its id finds that very device.
    pub proof fn law_devices_are_keyed_by_their_id(&self)
        requires
            self.wf(),
        ensures
            forall|id: InputDeviceId| #[trigger] self@.contains_key(id) ==> self@[id].id == id,
            self@.dom().finite(),
    {
        self.devices.lemma_entries_list_map();
        assert(self@.dom() =~= self.devices@.dom());
    }

    pub fn new() -> (r: DeviceRegistry)
        ensures
            r.wf(),
            r@ == Map::<InputDeviceId, InputDeviceView>::empty(),
    {
        let r = DeviceRegistry { devices: IdMap::new() };
        proof {
            assert(r@ =~= Map::<InputDeviceId, InputDeviceView>::empty());
        }
        r
    }

    /// Registers `device`; refused if a device with the same id is registered.
    pub fn add(&mut self, device: InputDevice) -> (r: Result<()>)
        requires
            old(self).wf(),
        ensures
            final(self).wf(),
            old(self)@.contains_key(device.id) ==> final(self)@ == old(self)@ && (r matches Err(
                Error::DeviceAlreadyRegistered(text),
            ) && text@ == uuid_text(device.id.0)),
            !old(self)@.contains_key(device.id) ==> r is Ok && final(self)@ == old(self)@.insert(device.id, device@),
    {
        if self.devices.contains_key(device.id) {
            return Err(Error::DeviceAlreadyRegistered(device.id.to_string()));
        }
        let ghost dv = device@;
        let id = device.id;
        self.devices.insert(id, device);
        proof {
            assert(self@ =~= old(self)@.insert(id, dv));
        }
        Ok(())
    }

    /// Unregisters the device `id`, handing it back; an error if it is not registered.
    pub fn remove(&mut self, id: InputDeviceId) -> (r: Result<InputDevice>)
        requires
            old(self).wf(),
        ensures
            final(self).wf(),
            final(self)@ == old(self)@.remove(id),
            old(self)@.contains_key(id) ==> (r matches Ok(d) && d@ == old(self)@[id]),
            !old(self)@.contains_key(id) ==> (r matches Err(Error::DeviceNotFound(text)) && text@ == uuid_text(id.0)),
    {
        let taken = self.devices.take(id);
        proof {
            assert(self@ =~= old(self)@.remove(id));
        }
        match taken {
            Some(d) => Ok(d),
            None => Err(Error::DeviceNotFound(id.to_string())),
        }
    }

    /// A copy of the registered device `id`, if any.
    pub fn get(&self, id: InputDeviceId) -> (r: Option<InputDevice>)
        requires
            self.wf(),
        ensures
            r is None <==> !self@.contains_key(id),
            r matches Some(d) ==> d@ == self@[id],
    {
        match self.devices.get(id) {
            Some(d) => Some(d.duplicate()),
            None => None,
        }
    }

    pub fn contains(&self, id: InputDeviceId) -> (b: bool)
        requires
            self.wf(),
        ensures
            b == self@.contains_key(id),
    {
        self.devices.contains_key(id)
    }

    /// Copies of every registered device whose connection state satisfies `connected_only`
    /// (all of them when it is false), each exactly once.
    fn collect(&self, connected_only: bool) -> (r: Vec<InputDevice>)
        requires
            self.wf(),
        ensures
            forall|i: int| 0 <= i < r@.len() ==> self@.contains_key(#[trigger] r@[i].id),
            forall|i: int| 0 <= i < r@.len() ==> #[trigger] r@[i]@ == self@[r@[i].id],
            connected_only ==> forall|i: int| 0 <= i < r@.len() ==> (#[trigger] r@[i]).connection_state == ConnectionState::Connected,
            forall|i: int, j: int| 0 <= i < j < r@.len() ==> #[trigger] r@[i].id != #[trigger] r@[j].id,
            forall|id: InputDeviceId| #[trigger] self@.contains_key(id)
                && (connected_only ==> self@[id].connection_state == ConnectionState::Connected)
                ==> exists|i: int| 0 <= i < r@.len() && #[trigger] r@[i].id == id,
    {
        let n = self.devices.len();
        let ghost entries = self.devices.entries();
        proof {
            self.devices.lemma_entries_list_map();
        }
        proof {
            assert forall|j: int| 0 <= j < n implies #[trigger] entries[j].1.id == entries[j].0
                && self.devices@[entries[j].0] == entries[j].1 && self.devices@.contains_key(entries[j].0) by {
                assert(self.devices@.contains_key(entries[j].0));
            }
        }
        let mut out: Vec<InputDevice> = Vec::new();
        let ghost mut picked: Seq<int> = Seq::empty();
        let mut i: usize = 0;
        while i < n
            invariant
                self.wf(),
                entries == self.devices.entries(),
                n == entries.len(),
                0 <= i <= n,
                forall|j: int| 0 <= j < n ==> #[trigger] entries[j].1.id == entries[j].0
                    && self.devices@[entries[j].0] == entries[j].1 && self.devices@.contains_key(entries[j].0),
                out@.len() == picked.len(),
                forall|k: int| 0 <= k < picked.len() ==> 0 <= #[trigger] picked[k] < i,
                forall|k: int, l: int| 0 <= k < l < picked.len() ==> #[trigger] picked[k] < #[trigger] picked[l],
                forall|k: int| 0 <= k < out@.len() ==> #[trigger] out@[k]@ == entries[picked[k]].1@,
                forall|k: int| 0 <= k < picked.len() ==> (connected_only ==> entries[#[trigger] picked[k]].1.connection_state == ConnectionState::Connected),
                forall|j: int| 0 <= j < i && (connected_only ==> entries[j].1.connection_state == ConnectionState::Connected)
                    ==> exists|k: int| 0 <= k < picked.len() && #[trigger] picked[k] == j,
            decreases n - i,
        {
            let d = self.devices.value_at(i);
            let take = !connected_only || d.connection_state == ConnectionState::Connected;
            let ghost old_out = out@;
            let ghost old_picked = picked;
            if take {
                let copy = d.duplicate();
                out.push(copy);
                proof {
                    picked = picked.push(i as int);
                    assert(out@[out@.len() - 1]@ == entries[i as int].1@);
                }
            }
            proof {
                assert forall|k: int| 0 <= k < old_out.len() implies out@[k] == old_out[k] && picked[k] == old_picked[k] by {}
                assert forall|k: int| 0 <= k < out@.len() implies #[trigger] out@[k]@ == entries[picked[k]].1@ by {
                    if k < old_out.len() {
                        assert(out@[k] == old_out[k]);
                        assert(picked[k] == old_picked[k]);
                    }
                }
                assert forall|j: int| 0 <= j < i + 1 && (connected_only ==> entries[j].1.connection_state == ConnectionState::Connected)
                    implies exists|k: int| 0 <= k < picked.len() && #[trigger] picked[k] == j by {
                    if j == i {
                        assert(picked[picked.len() - 1] == j);
                    } else {
                        let k = choose|k: int| 0 <= k < old_picked.len() && #[trigger] old_picked[k] == j;
                        assert(picked[k] == j);
                    }
                }
            }
            i = i + 1;
        }
        proof {
            self.devices.lemma_entries_list_map();
            assert forall|k: int| 0 <= k < out@.len() implies (self@.contains_key((#[trigger] out@[k]).id)
                && out@[k]@ == self@[out@[k].id] && (connected_only ==> out@[k].connection_state == ConnectionState::Connected)) by {
                let j = picked[k];
                assert(0 <= j < entries.len());
                assert(entries[j].1.id == entries[j].0);
                assert(out@[k]@ == entries[j].1@);
                assert(out@[k]@.id == entries[j].1@.id);
                assert(out@[k]@.connection_state == entries[j].1@.connection_state);
                assert(out@[k].id == entries[j].0);
            }
            assert forall|k: int, l: int| 0 <= k < l < out@.len() implies #[trigger] out@[k].id != #[trigger] out@[l].id by {
                let a = picked[k];
                let b = picked[l];
                assert(a < b);
                assert(entries[a].1.id == entries[a].0);
                assert(entries[b].1.id == entries[b].0);
                assert(out@[k]@.id == entries[a].1@.id);
                assert(out@[l]@.id == entries[b].1@.id);
                assert(out@[k].id == entries[a].0);
                assert(out@[l].id == entries[b].0);
                assert(entries[a].0 != entries[b].0);
            }
            assert forall|id: InputDeviceId| #[trigger] self@.contains_key(id)
                && (connected_only ==> self@[id].connection_state == ConnectionState::Connected)
                implies exists|k: int| 0 <= k < out@.len() && #[trigger] out@[k].id == id by {
                assert(self.devices@.contains_key(id));
                let j = choose|j: int| 0 <= j < entries.len() && #[trigger] entries[j].0 == id;
                assert(self.devices@[id] == entries[j].1);
                let k = choose|k: int| 0 <= k < picked.len() && #[trigger] picked[k] == j;
                assert(entries[j].1.id == entries[j].0);
                assert(out@[k]@.id == entries[j].1@.id);
                assert(out@[k].id == id);
            }
        }
        out
    }

    /// Copies of every registered device, each exactly once (in no promised order).
    pub fn list(&self) -> (r: Vec<InputDevice>)
        requires
            self.wf(),
        ensures
            forall|i: int| 0 <= i < r@.len() ==> self@.contains_key(#[trigger] r@[i].id),
            forall|i: int| 0 <= i < r@.len() ==> #[trigger] r@[i]@ == self@[r@[i].id],
            forall|i: int, j: int| 0 <= i < j < r@.len() ==> #[trigger] r@[i].id != #[trigger] r@[j].id,
            forall|id: InputDeviceId| #[trigger] self@.contains_key(id) ==> exists|i: int| 0 <= i < r@.len() && #[trigger] r@[i].id == id,
    {
        self.collect(false)
    }

    /// Copies of every registered device in the `Connected` state, each exactly once.
    pub fn connected(&self) -> (r: Vec<InputDevice>)
        requires
            self.wf(),
        ensures
            forall|i: int| 0 <= i < r@.len() ==> self@.contains_key(#[trigger] r@[i].id),
            forall|i: int| 0 <= i < r@.len() ==> #[trigger] r@[i]@ == self@[r@[i].id],
            forall|i: int| 0 <= i < r@.len() ==> (#[trigger] r@[i]).connection_state == ConnectionState::Connected,
            forall|i: int, j: int| 0 <= i < j < r@.len() ==> #[trigger] r@[i].id != #[trigger] r@[j].id,
            forall|id: InputDeviceId| #[trigger] self@.contains_key(id)
                && self@[id].connection_state == ConnectionState::Connected
                ==> exists|i: int| 0 <= i < r@.len() && #[trigger] r@[i].id == id,
    {
        self.collect(true)
    }

    pub fn len(&self) -> (n: usize)
        requires
            self.wf(),
        ensures
            n == self@.len(),
    {
        proof {
            assert(self@.dom() =~= self.devices@.dom());
        }
        self.devices.len()
    }

    pub fn is_empty(&self) -> (b: bool)
        requires
            self.wf(),
        ensures
            b == (self@.len() == 0),
    {
        self.len() == 0
    }
}


/// Registration round-trips: a device added under a fresh id is found under that id
/// with the same value, a second addition of the id is refused without changing
/// anything, and removing the device forgets it again.
pub proof fn law_registry_round_trip(devices: Map<InputDeviceId, InputDeviceView>, device: InputDeviceView)
    requires
        !devices.contains_key(device.id),
    ensures
        devices.insert(device.id, device).contains_key(device.id),
        devices.insert(device.id, device)[device.id] == device,
        devices.insert(device.id, device).remove(device.id) == devices,
{
    assert(devices.insert(device.id, device).remove(device.id) =~= devices);
}
} // verus!
