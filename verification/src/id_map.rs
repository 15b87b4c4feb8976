use vstd::prelude::*;

verus! {

/// An identifier whose equality can be decided exactly at run time.
pub trait ExactKey: Copy {
    fn same_key(&self, other: &Self) -> (b: bool)
        ensures
            b == (*self == *other),
    ;
}

/// A small association list from identifiers to values. Every identifier occurs at
/// most once; the list order is the order in which identifiers were (re)inserted.
#[verifier::reject_recursive_types(K)]
pub struct IdMap<K, V> {
    entries: Vec<(K, V)>,
    model: Ghost<Map<K, V>>,
}

impl<K: ExactKey, V> IdMap<K, V> {
    /// The value stored under each identifier.
    pub closed spec fn view(&self) -> Map<K, V> {
        self.model@
    }

    /// The stored entries in list order.
    pub closed spec fn entries(&self) -> Seq<(K, V)> {
        self.entries@
    }

    pub closed spec fn wf(&self) -> bool {
        &&& self.model@.dom().finite()
        &&& self.model@.len() == self.entries@.len()
        &&& forall|i: int, j: int|
            0 <= i < j < self.entries@.len() ==> #[trigger] self.entries@[i].0 != #[trigger] self.entries@[j].0
        &&& forall|i: int|
            0 <= i < self.entries@.len() ==> #[trigger] self.model@.contains_key(self.entries@[i].0)
                && self.model@[self.entries@[i].0] == self.entries@[i].1
        &&& forall|id: K|
            #[trigger] self.model@.contains_key(id) ==> exists|i: int|
                0 <= i < self.entries@.len() && #[trigger] self.entries@[i].0 == id
    }

    /// The entries list the map: each listed pair is an entry of the map, no id is
    /// listed twice and every id of the map is listed.
    pub proof fn lemma_entries_list_map(&self)
        requires
            self.wf(),
        ensures
            self@.dom().finite(),
            self.entries().len() == self@.len(),
            forall|i: int|
                0 <= i < self.entries().len() ==> #[trigger] self@.contains_key(self.entries()[i].0)
                    && self@[self.entries()[i].0] == self.entries()[i].1,
            forall|i: int, j: int|
                0 <= i < j < self.entries().len() ==> #[trigger] self.entries()[i].0 != #[trigger] self.entries()[j].0,
            forall|id: K|
                #[trigger] self@.contains_key(id) ==> exists|i: int|
                    0 <= i < self.entries().len() && #[trigger] self.entries()[i].0 == id,
    {
    }

    pub fn new() -> (m: IdMap<K, V>)
        ensures
            m.wf(),
            m@ == Map::<K, V>::empty(),
    {
        IdMap { entries: Vec::new(), model: Ghost(Map::empty()) }
    }

    pub fn len(&self) -> (n: usize)
        requires
            self.wf(),
        ensures
            n == self@.len(),
    {
        self.entries.len()
    }

    /// The position of `id` in the list, if present.
    fn find(&self, id: K) -> (r: Option<usize>)
        requires
            self.wf(),
        ensures
            r is None <==> !self@.contains_key(id),
            r matches Some(i) ==> i < self.entries@.len() && self.entries@[i as int].0 == id,
    {
        let mut i: usize = 0;
        while i < self.entries.len()
            invariant
                self.wf(),
                0 <= i <= self.entries@.len(),
                forall|j: int| 0 <= j < i ==> self.entries@[j].0 != id,
            decreases self.entries@.len() - i,
        {
            if self.entries[i].0.same_key(&id) {
                return Some(i);
            }
            i = i + 1;
        }
        None
    }

    pub fn contains_key(&self, id: K) -> (b: bool)
        requires
            self.wf(),
        ensures
            b == self@.contains_key(id),
    {
        self.find(id).is_some()
    }

    pub fn get(&self, id: K) -> (r: Option<&V>)
        requires
            self.wf(),
        ensures
            r is None <==> !self@.contains_key(id),
            r matches Some(v) ==> *v == self@[id],
    {
        match self.find(id) {
            Some(i) => Some(&self.entries[i].1),
            None => None,
        }
    }

    /// Removes the entry for `id`, returning its value.
    pub fn take(&mut self, id: K) -> (r: Option<V>)
        requires
            old(self).wf(),
        ensures
            final(self).wf(),
            final(self)@ == old(self)@.remove(id),
            r is None <==> !old(self)@.contains_key(id),
            r matches Some(v) ==> v == old(self)@[id],
    {
        match self.find(id) {
            None => {
                proof {
                    assert(self.model@.remove(id) =~= self.model@);
                }
                None
            },
            Some(i) => {
                let ghost old_entries = self.entries@;
                let ghost old_model = self.model@;
                let (_, v) = self.entries.remove(i);
                self.model = Ghost(old_model.remove(id));
                proof {
                    assert forall|a: int, b: int|
                        0 <= a < b < self.entries@.len() implies #[trigger] self.entries@[a].0 != #[trigger] self.entries@[b].0 by {
                        let a0 = if a < i { a } else { a + 1 };
                        let b0 = if b < i { b } else { b + 1 };
                        assert(self.entries@[a] == old_entries[a0]);
                        assert(self.entries@[b] == old_entries[b0]);
                    }
                    assert forall|a: int|
                        0 <= a < self.entries@.len() implies #[trigger] self.model@.contains_key(self.entries@[a].0)
                            && self.model@[self.entries@[a].0] == self.entries@[a].1 by {
                        let a0 = if a < i { a } else { a + 1 };
                        assert(self.entries@[a] == old_entries[a0]);
                        if a0 < i {
                            assert(old_entries[a0].0 != old_entries[i as int].0);
                        } else {
                            assert(old_entries[i as int].0 != old_entries[a0].0);
                        }
                        assert(old_model.contains_key(old_entries[a0].0));
                        assert(old_model[old_entries[a0].0] == old_entries[a0].1);
                    }
                    assert forall|k: K|
                        #[trigger] self.model@.contains_key(k) implies exists|a: int|
                            0 <= a < self.entries@.len() && #[trigger] self.entries@[a].0 == k by {
                        let a0 = choose|a0: int| 0 <= a0 < old_entries.len() && #[trigger] old_entries[a0].0 == k;
                        assert(a0 != i);
                        let a = if a0 < i { a0 } else { a0 - 1 };
                        assert(self.entries@[a] == old_entries[a0]);
                    }
                }
                Some(v)
            },
        }
    }

    /// Sets the value for `id`, replacing any previous one; the entry moves to the end
    /// of the list.
    pub fn insert(&mut self, id: K, value: V)
        requires
            old(self).wf(),
        ensures
            final(self).wf(),
            final(self)@ == old(self)@.insert(id, value),
    {
        let _ = self.take(id);
        let ghost mid_entries = self.entries@;
        let ghost mid_model = self.model@;
        self.entries.push((id, value));
        self.model = Ghost(mid_model.insert(id, value));
        proof {
            assert(!mid_model.contains_key(id));
            assert forall|a: int, b: int|
                0 <= a < b < self.entries@.len() implies #[trigger] self.entries@[a].0 != #[trigger] self.entries@[b].0 by {
                if b == self.entries@.len() - 1 {
                    assert(self.entries@[a] == mid_entries[a]);
                    assert(mid_model.contains_key(mid_entries[a].0));
                } else {
                    assert(self.entries@[a] == mid_entries[a]);
                    assert(self.entries@[b] == mid_entries[b]);
                }
            }
            assert forall|a: int|
                0 <= a < self.entries@.len() implies #[trigger] self.model@.contains_key(self.entries@[a].0)
                    && self.model@[self.entries@[a].0] == self.entries@[a].1 by {
                if a < self.entries@.len() - 1 {
                    assert(self.entries@[a] == mid_entries[a]);
                    assert(mid_model.contains_key(mid_entries[a].0));
                }
            }
            assert forall|k: K|
                #[trigger] self.model@.contains_key(k) implies exists|a: int|
                    0 <= a < self.entries@.len() && #[trigger] self.entries@[a].0 == k by {
                if k == id {
                    assert(self.entries@[self.entries@.len() - 1].0 == id);
                } else {
                    let a = choose|a: int| 0 <= a < mid_entries.len() && #[trigger] mid_entries[a].0 == k;
                    assert(self.entries@[a] == mid_entries[a]);
                }
            }
            assert(self.model@.len() == mid_model.len() + 1);
            assert(self.model@ =~= old(self)@.insert(id, value));
        }
    }

    /// The value stored at list position `i`.
    pub fn value_at(&self, i: usize) -> (r: &V)
        requires
            self.wf(),
            i < self.entries().len(),
        ensures
            *r == self.entries()[i as int].1,
    {
        &self.entries[i].1
    }

    /// The id stored at list position `i`.
    pub fn key_at(&self, i: usize) -> (r: K)
        requires
            self.wf(),
            i < self.entries().len(),
        ensures
            r == self.entries()[i as int].0,
    {
        self.entries[i].0
    }
}

} // verus!
