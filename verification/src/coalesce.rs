use crate::event::{InputEvent, InputEventPayload};
use crate::ids::InputDeviceId;
use crate::pointer::{saturating_add, saturating_sum, PointerEvent, ScrollAxis};
use crate::source::InputSource;
use vstd::prelude::*;

verus! {

/// The slot a coalescible event occupies on its device: all motion shares one slot,
/// scrolling has one slot per axis.
#[derive(Debug, Clone, Copy, PartialEq, Eq, Hash, Structural)]
pub enum CoalesceKey {
    Motion,
    Scroll(ScrollAxis),
}

/// The coalescing slot of an event's payload, if it is coalescible at all.
pub open spec fn spec_coalesce_key(payload: InputEventPayload) -> Option<CoalesceKey> {
    match payload {
        InputEventPayload::Pointer(PointerEvent::MotionRelative { .. }) => Some(CoalesceKey::Motion),
        InputEventPayload::Pointer(PointerEvent::MotionAbsolute { .. }) => Some(CoalesceKey::Motion),
        InputEventPayload::Pointer(PointerEvent::Scroll { axis, .. }) => Some(CoalesceKey::Scroll(axis)),
        _ => None,
    }
}

fn coalesce_key(payload: &InputEventPayload) -> (k: Option<CoalesceKey>)
    ensures
        k == spec_coalesce_key(*payload),
{
    match payload {
        InputEventPayload::Pointer(PointerEvent::MotionRelative { .. }) => Some(CoalesceKey::Motion),
        InputEventPayload::Pointer(PointerEvent::MotionAbsolute { .. }) => Some(CoalesceKey::Motion),
        InputEventPayload::Pointer(PointerEvent::Scroll { axis, .. }) => Some(CoalesceKey::Scroll(*axis)),
        _ => None,
    }
}

/// The payload of a pending sample after `incoming` is merged into it: relative
/// motion accumulates both deltas, scrolling accumulates the delta (keeping the
/// pending sample's axis and resolution flag), and anything else (absolute motion, or
/// a mix of relative and absolute) is superseded by the newer sample. Sums clamp to
/// the range of `i64`.
pub open spec fn merge_payload(existing: InputEventPayload, incoming: InputEventPayload) -> InputEventPayload {
    match (existing, incoming) {
        (
            InputEventPayload::Pointer(PointerEvent::MotionRelative { dx, dy }),
            InputEventPayload::Pointer(PointerEvent::MotionRelative { dx: idx, dy: idy }),
        ) => InputEventPayload::Pointer(
            PointerEvent::MotionRelative { dx: saturating_sum(dx, idx), dy: saturating_sum(dy, idy) },
        ),
        (
            InputEventPayload::Pointer(PointerEvent::Scroll { axis, delta, high_resolution }),
            InputEventPayload::Pointer(PointerEvent::Scroll { delta: idelta, .. }),
        ) => InputEventPayload::Pointer(
            PointerEvent::Scroll { axis, delta: saturating_sum(delta, idelta), high_resolution },
        ),
        (_, p) => p,
    }
}

/// A pending sample with `incoming` merged in: the payloads merge, and the timestamp,
/// sequence number and modifiers become those of the newer sample.
pub open spec fn spec_merge(existing: InputEvent, incoming: InputEvent) -> InputEvent {
    InputEvent {
        timestamp: incoming.timestamp,
        sequence: incoming.sequence,
        device_id: existing.device_id,
        source: existing.source,
        modifiers: incoming.modifiers,
        payload: merge_payload(existing.payload, incoming.payload),
    }
}

fn merge(existing: InputEvent, incoming: InputEvent) -> (r: InputEvent)
    ensures
        r == spec_merge(existing, incoming),
{
    let payload = match (existing.payload, incoming.payload) {
        (
            InputEventPayload::Pointer(PointerEvent::MotionRelative { dx, dy }),
            InputEventPayload::Pointer(PointerEvent::MotionRelative { dx: idx, dy: idy }),
        ) => InputEventPayload::Pointer(
            PointerEvent::MotionRelative { dx: saturating_add(dx, idx), dy: saturating_add(dy, idy) },
        ),
        (
            InputEventPayload::Pointer(PointerEvent::Scroll { axis, delta, high_resolution }),
            InputEventPayload::Pointer(PointerEvent::Scroll { delta: idelta, .. }),
        ) => InputEventPayload::Pointer(
            PointerEvent::Scroll { axis, delta: saturating_add(delta, idelta), high_resolution },
        ),
        (_, p) => p,
    };
    InputEvent {
        timestamp: incoming.timestamp,
        sequence: incoming.sequence,
        device_id: existing.device_id,
        source: existing.source,
        modifiers: incoming.modifiers,
        payload,
    }
}

/// Whether `e` occupies the slot `(device, source, key)`: samples from different
/// sources never share a slot, so synthetic input is never merged into physical input
/// or the other way round.
pub open spec fn in_slot(e: InputEvent, device: InputDeviceId, source: InputSource, key: CoalesceKey) -> bool {
    e.device_id == device && e.source == source && spec_coalesce_key(e.payload) == Some(key)
}

/// How many leading samples of `s` have a sequence number of at most `x`: where a
/// sample numbered `x` goes in a sequence kept in order.
pub open spec fn insert_pos(s: Seq<InputEvent>, x: u64) -> nat
    decreases s.len(),
{
    if s.len() == 0 || s[0].sequence.0 > x {
        0
    } else {
        1 + insert_pos(s.drop_first(), x)
    }
}

/// `s` with `e` inserted after every sample numbered at most `e`'s sequence number.
pub open spec fn sorted_insert(s: Seq<InputEvent>, e: InputEvent) -> Seq<InputEvent> {
    s.insert(insert_pos(s, e.sequence.0) as int, e)
}

/// The samples of `s` from `device`, in order.
pub open spec fn of_device(s: Seq<InputEvent>, device: InputDeviceId) -> Seq<InputEvent> {
    s.filter(|e: InputEvent| e.device_id == device)
}

/// The samples of `s` not from `device`, in order.
pub open spec fn not_of_device(s: Seq<InputEvent>, device: InputDeviceId) -> Seq<InputEvent> {
    s.filter(|e: InputEvent| e.device_id != device)
}

/// `s` is in non-decreasing sequence-number order.
pub open spec fn sorted_by_sequence(s: Seq<InputEvent>) -> bool {
    forall|i: int, j: int| 0 <= i < j < s.len() ==> #[trigger] s[i].sequence.0 <= #[trigger] s[j].sequence.0
}

/// The pending samples and the delivered events after offering `event`.
/// A coalescible event merges into the pending sample of its device, source and slot,
/// or becomes that sample, and nothing is delivered. Any other event delivers every
/// pending sample of its device first, in order, then itself.
pub open spec fn spec_offer(pending: Seq<InputEvent>, event: InputEvent) -> (Seq<InputEvent>, Seq<InputEvent>) {
    match spec_coalesce_key(event.payload) {
        Some(key) => if exists|i: int| 0 <= i < pending.len() && #[trigger] in_slot(pending[i], event.device_id, event.source, key) {
            let i = choose|i: int| 0 <= i < pending.len() && #[trigger] in_slot(pending[i], event.device_id, event.source, key);
            (sorted_insert(pending.remove(i), spec_merge(pending[i], event)), Seq::empty())
        } else {
            (sorted_insert(pending, event), Seq::empty())
        },
        None => (not_of_device(pending, event.device_id), of_device(pending, event.device_id).push(event)),
    }
}

/// Controlled coalescing of high-frequency motion and scroll samples. Samples for the
/// same device, source and slot merge while pending (physical and synthetic samples
/// never merge); button, key, touch and hotplug events are
/// never merged, and pending motion of a device is always delivered before a later
/// non-coalescible event of that device.
pub struct Coalescer {
    pending: Vec<InputEvent>,
}

impl View for Coalescer {
    type V = Seq<InputEvent>;

    /// The pending samples in delivery order.
    closed spec fn view(&self) -> Seq<InputEvent> {
        self.pending@
    }
}

/// Every pending sample is coalescible, occupies its own slot, and the samples are
/// kept in sequence-number order.
pub open spec fn pending_wf(s: Seq<InputEvent>) -> bool {
    &&& sorted_by_sequence(s)
    &&& forall|i: int| 0 <= i < s.len() ==> (#[trigger] spec_coalesce_key(s[i].payload)) is Some
    &&& forall|i: int, j: int| 0 <= i < j < s.len() ==> #[trigger] s[i].device_id != #[trigger] s[j].device_id
        || s[i].source != s[j].source || spec_coalesce_key(s[i].payload) != spec_coalesce_key(s[j].payload)
}

impl Coalescer {
    pub open spec fn wf(&self) -> bool {
        pending_wf(self@)
    }

    pub fn new() -> (c: Coalescer)
        ensures
            c.wf(),
            c@ == Seq::<InputEvent>::empty(),
    {
        Coalescer { pending: Vec::new() }
    }
}


/// `insert_pos` counts the leading samples numbered at most `x`: all of them are, and
/// the next one (if any) is numbered above `x`.
pub proof fn lemma_insert_pos(s: Seq<InputEvent>, x: u64)
    ensures
        insert_pos(s, x) <= s.len(),
        forall|j: int| 0 <= j < insert_pos(s, x) ==> #[trigger] s[j].sequence.0 <= x,
        insert_pos(s, x) < s.len() ==> s[insert_pos(s, x) as int].sequence.0 > x,
    decreases s.len(),
{
    if s.len() == 0 || s[0].sequence.0 > x {
    } else {
        lemma_insert_pos(s.drop_first(), x);
        assert forall|j: int| 0 <= j < insert_pos(s, x) implies #[trigger] s[j].sequence.0 <= x by {
            if j > 0 {
                assert(s[j] == s.drop_first()[j - 1]);
            }
        }
    }
}

/// A position with only samples numbered at most `x` before it and a sample numbered
/// above `x` (or the end) at it is `insert_pos`.
pub proof fn lemma_insert_pos_unique(s: Seq<InputEvent>, x: u64, p: int)
    requires
        0 <= p <= s.len(),
        forall|j: int| 0 <= j < p ==> #[trigger] s[j].sequence.0 <= x,
        p == s.len() || s[p].sequence.0 > x,
    ensures
        insert_pos(s, x) == p,
    decreases p,
{
    if p == 0 {
    } else {
        assert(s[0].sequence.0 <= x);
        let t = s.drop_first();
        assert forall|j: int| 0 <= j < p - 1 implies #[trigger] t[j].sequence.0 <= x by {
            assert(t[j] == s[j + 1]);
        }
        if p < s.len() {
            assert(t[p - 1] == s[p]);
        }
        lemma_insert_pos_unique(t, x, p - 1);
    }
}

/// Inserting a coalescible sample whose slot is free keeps the pending samples
/// well-formed.
pub proof fn lemma_sorted_insert_wf(s: Seq<InputEvent>, e: InputEvent)
    requires
        pending_wf(s),
        spec_coalesce_key(e.payload) is Some,
        forall|j: int| 0 <= j < s.len() ==> !in_slot(#[trigger] s[j], e.device_id, e.source, spec_coalesce_key(e.payload)->0),
    ensures
        pending_wf(sorted_insert(s, e)),
        sorted_insert(s, e).len() == s.len() + 1,
{
    let p = insert_pos(s, e.sequence.0) as int;
    lemma_insert_pos(s, e.sequence.0);
    let r = sorted_insert(s, e);
    assert(r.len() == s.len() + 1);
    assert forall|a: int| 0 <= a < r.len() implies #[trigger] r[a] == (if a < p { s[a] } else if a == p { e } else { s[a - 1] }) by {}
    assert forall|a: int, b: int| 0 <= a < b < r.len() implies #[trigger] r[a].sequence.0 <= #[trigger] r[b].sequence.0 by {
        if b < p {
        } else if b == p {
            assert(s[a].sequence.0 <= e.sequence.0);
        } else if a < p {
            assert(s[a].sequence.0 <= s[b - 1].sequence.0);
        } else if a == p {
            if p < s.len() {
                assert(s[p].sequence.0 > e.sequence.0);
                if b - 1 > p {
                    assert(s[p].sequence.0 <= s[b - 1].sequence.0);
                }
            }
        } else {
            assert(s[a - 1].sequence.0 <= s[b - 1].sequence.0);
        }
    }
    assert forall|a: int| 0 <= a < r.len() implies (#[trigger] spec_coalesce_key(r[a].payload)) is Some by {
        if a < p {
            assert(spec_coalesce_key(s[a].payload) is Some);
        } else if a > p {
            assert(spec_coalesce_key(s[a - 1].payload) is Some);
        }
    }
    assert forall|a: int, b: int| 0 <= a < b < r.len() implies #[trigger] r[a].device_id != #[trigger] r[b].device_id
        || r[a].source != r[b].source || spec_coalesce_key(r[a].payload) != spec_coalesce_key(r[b].payload) by {
        let ia = if a < p { a } else { a - 1 };
        let ib = if b < p { b } else { b - 1 };
        if a == p {
            assert(!in_slot(s[ib], e.device_id, e.source, spec_coalesce_key(e.payload)->0));
        } else if b == p {
            assert(!in_slot(s[ia], e.device_id, e.source, spec_coalesce_key(e.payload)->0));
        } else {
            assert(ia < ib);
            assert(s[ia].device_id != s[ib].device_id || s[ia].source != s[ib].source || spec_coalesce_key(s[ia].payload) != spec_coalesce_key(s[ib].payload));
        }
    }
}

/// Removing a sample keeps the pending samples well-formed.
pub proof fn lemma_remove_wf(s: Seq<InputEvent>, i: int)
    requires
        pending_wf(s),
        0 <= i < s.len(),
    ensures
        pending_wf(s.remove(i)),
{
    let r = s.remove(i);
    assert forall|a: int| 0 <= a < r.len() implies #[trigger] r[a] == (if a < i { s[a] } else { s[a + 1] }) by {}
    assert forall|a: int, b: int| 0 <= a < b < r.len() implies #[trigger] r[a].sequence.0 <= #[trigger] r[b].sequence.0 by {
        let ia = if a < i { a } else { a + 1 };
        let ib = if b < i { b } else { b + 1 };
        assert(s[ia].sequence.0 <= s[ib].sequence.0);
    }
    assert forall|a: int| 0 <= a < r.len() implies (#[trigger] spec_coalesce_key(r[a].payload)) is Some by {
        let ia = if a < i { a } else { a + 1 };
        assert(spec_coalesce_key(s[ia].payload) is Some);
    }
    assert forall|a: int, b: int| 0 <= a < b < r.len() implies #[trigger] r[a].device_id != #[trigger] r[b].device_id
        || r[a].source != r[b].source || spec_coalesce_key(r[a].payload) != spec_coalesce_key(r[b].payload) by {
        let ia = if a < i { a } else { a + 1 };
        let ib = if b < i { b } else { b + 1 };
        assert(s[ia].device_id != s[ib].device_id || s[ia].source != s[ib].source || spec_coalesce_key(s[ia].payload) != spec_coalesce_key(s[ib].payload));
    }
}

/// Keeping only some of the pending samples keeps them well-formed.
pub proof fn lemma_filter_wf(s: Seq<InputEvent>, p: spec_fn(InputEvent) -> bool)
    requires
        pending_wf(s),
    ensures
        pending_wf(s.filter(p)),
    decreases s.len(),
{
    reveal(Seq::filter);
    if s.len() > 0 {
        let t = s.drop_last();
        let last = s.last();
        assert(pending_wf(t)) by {
            assert forall|a: int, b: int| 0 <= a < b < t.len() implies #[trigger] t[a].sequence.0 <= #[trigger] t[b].sequence.0 by {
                assert(s[a].sequence.0 <= s[b].sequence.0);
            }
            assert forall|a: int| 0 <= a < t.len() implies (#[trigger] spec_coalesce_key(t[a].payload)) is Some by {
                assert(spec_coalesce_key(s[a].payload) is Some);
            }
            assert forall|a: int, b: int| 0 <= a < b < t.len() implies #[trigger] t[a].device_id != #[trigger] t[b].device_id
                || t[a].source != t[b].source || spec_coalesce_key(t[a].payload) != spec_coalesce_key(t[b].payload) by {
                assert(s[a].device_id != s[b].device_id || s[a].source != s[b].source || spec_coalesce_key(s[a].payload) != spec_coalesce_key(s[b].payload));
            }
        }
        lemma_filter_wf(t, p);
        let f = t.filter(p);
        if p(last) {
            let r = f.push(last);
            assert(s.filter(p) == r);
            assert forall|a: int| 0 <= a < f.len() implies exists|j: int| 0 <= j < t.len() && #[trigger] t[j] == #[trigger] f[a] by {
                assert(f.contains(f[a]));
                t.lemma_filter_contains_rev(p, f[a]);
            }
            assert forall|a: int, b: int| 0 <= a < b < r.len() implies #[trigger] r[a].sequence.0 <= #[trigger] r[b].sequence.0 by {
                if b == r.len() - 1 {
                    let j = choose|j: int| 0 <= j < t.len() && #[trigger] t[j] == f[a];
                    assert(s[j].sequence.0 <= s[s.len() - 1].sequence.0);
                }
            }
            assert forall|a: int| 0 <= a < r.len() implies (#[trigger] spec_coalesce_key(r[a].payload)) is Some by {
                if a == r.len() - 1 {
                    assert(spec_coalesce_key(s[s.len() - 1].payload) is Some);
                }
            }
            assert forall|a: int, b: int| 0 <= a < b < r.len() implies #[trigger] r[a].device_id != #[trigger] r[b].device_id
                || r[a].source != r[b].source || spec_coalesce_key(r[a].payload) != spec_coalesce_key(r[b].payload) by {
                if b == r.len() - 1 {
                    let j = choose|j: int| 0 <= j < t.len() && #[trigger] t[j] == f[a];
                    assert(s[j].device_id != s[s.len() - 1].device_id
                        || s[j].source != s[s.len() - 1].source || spec_coalesce_key(s[j].payload) != spec_coalesce_key(s[s.len() - 1].payload));
                }
            }
        } else {
            assert(s.filter(p) == f);
        }
    }
}

impl Coalescer {
    /// The position of the pending sample in slot `(device, source, key)`, if any.
    fn find_slot(&self, device: InputDeviceId, source: InputSource, key: CoalesceKey) -> (r: Option<usize>)
        requires
            self.wf(),
        ensures
            r is None ==> forall|j: int| 0 <= j < self@.len() ==> !in_slot(#[trigger] self@[j], device, source, key),
            r matches Some(i) ==> i < self@.len() && in_slot(self@[i as int], device, source, key),
    {
        let mut i: usize = 0;
        while i < self.pending.len()
            invariant
                0 <= i <= self.pending@.len(),
                forall|j: int| 0 <= j < i ==> !in_slot(#[trigger] self.pending@[j], device, source, key),
            decreases self.pending@.len() - i,
        {
            let e = &self.pending[i];
            if e.device_id == device && e.source == source {
                match coalesce_key(&e.payload) {
                    Some(k) => {
                        if k == key {
                            return Some(i);
                        }
                    },
                    None => {},
                }
            }
            i = i + 1;
        }
        None
    }

    /// Inserts `e` after every pending sample numbered at most its sequence number.
    fn insert_sorted(&mut self, e: InputEvent)
        ensures
            final(self)@ == sorted_insert(old(self)@, e),
    {
        let x = e.sequence.0;
        let mut p: usize = 0;
        while p < self.pending.len() && self.pending[p].sequence.0 <= x
            invariant
                0 <= p <= self.pending@.len(),
                forall|j: int| 0 <= j < p ==> #[trigger] self.pending@[j].sequence.0 <= x,
            decreases self.pending@.len() - p,
        {
            p = p + 1;
        }
        proof {
            lemma_insert_pos_unique(self.pending@, x, p as int);
        }
        self.pending.insert(p, e);
    }

    /// Offers `event`; returns the events that are now safe to deliver, in order. A
    /// coalescible event returns nothing (it becomes, or merges into, the pending
    /// sample of its device and slot); any other event returns the pending samples of
    /// its device, in sequence order, followed by itself.
    pub fn offer(&mut self, event: InputEvent) -> (out: Vec<InputEvent>)
        requires
            old(self).wf(),
        ensures
            final(self).wf(),
            (final(self)@, out@) == spec_offer(old(self)@, event),
    {
        match coalesce_key(&event.payload) {
            Some(key) => {
                match self.find_slot(event.device_id, event.source, key) {
                    Some(i) => {
                        let ghost s = self@;
                        let existing = self.pending.remove(i);
                        let merged = merge(existing, event);
                        proof {
                            let c = choose|c: int| 0 <= c < s.len() && #[trigger] in_slot(s[c], event.device_id, event.source, key);
                            if c != i as int {
                                if c < i {
                                    assert(s[c].device_id != s[i as int].device_id
                                        || s[c].source != s[i as int].source || spec_coalesce_key(s[c].payload) != spec_coalesce_key(s[i as int].payload));
                                } else {
                                    assert(s[i as int].device_id != s[c].device_id
                                        || s[i as int].source != s[c].source || spec_coalesce_key(s[i as int].payload) != spec_coalesce_key(s[c].payload));
                                }
                            }
                            lemma_remove_wf(s, i as int);
                            let r = s.remove(i as int);
                            assert(spec_coalesce_key(merged.payload) == Some(key));
                            assert forall|j: int| 0 <= j < r.len() implies !in_slot(#[trigger] r[j], merged.device_id, merged.source, key) by {
                                let ij = if j < i { j } else { j + 1 };
                                assert(r[j] == s[ij]);
                                if ij < i {
                                    assert(s[ij].device_id != s[i as int].device_id
                                        || s[ij].source != s[i as int].source || spec_coalesce_key(s[ij].payload) != spec_coalesce_key(s[i as int].payload));
                                } else {
                                    assert(s[i as int].device_id != s[ij].device_id
                                        || s[i as int].source != s[ij].source || spec_coalesce_key(s[i as int].payload) != spec_coalesce_key(s[ij].payload));
                                }
                            }
                            lemma_sorted_insert_wf(r, merged);
                        }
                        self.insert_sorted(merged);
                    },
                    None => {
                        proof {
                            lemma_sorted_insert_wf(self@, event);
                        }
                        self.insert_sorted(event);
                    },
                }
                Vec::new()
            },
            None => {
                let device = event.device_id;
                let mut out = self.drain_device(device);
                out.push(event);
                out
            },
        }
    }

    /// Flushes all pending samples of `device`, in sequence order (e.g. before a
    /// non-coalescible event of that device, or when it is removed).
    pub fn drain_device(&mut self, device: InputDeviceId) -> (out: Vec<InputEvent>)
        requires
            old(self).wf(),
        ensures
            final(self).wf(),
            out@ == of_device(old(self)@, device),
            final(self)@ == not_of_device(old(self)@, device),
    {
        let ghost s = self@;
        let ghost mine = |e: InputEvent| e.device_id == device;
        let ghost others = |e: InputEvent| e.device_id != device;
        let mut rest: Vec<InputEvent> = Vec::new();
        std::mem::swap(&mut rest, &mut self.pending);
        let mut out: Vec<InputEvent> = Vec::new();
        let mut keep: Vec<InputEvent> = Vec::new();
        let ghost mut n: int = 0;
        proof {
            reveal(Seq::filter);
            assert(s.take(0) =~= Seq::<InputEvent>::empty());
            assert(rest@ =~= s.skip(0));
        }
        while rest.len() > 0
            invariant
                0 <= n <= s.len(),
                rest@ == s.skip(n),
                out@ == s.take(n).filter(mine),
                keep@ == s.take(n).filter(others),
                forall|e: InputEvent| #[trigger] mine(e) == (e.device_id == device),
                forall|e: InputEvent| #[trigger] others(e) == (e.device_id != device),
            decreases rest@.len(),
        {
            let e = rest.remove(0);
            proof {
                assert(e == s[n]);
                assert(s.take(n + 1) =~= s.take(n).push(e));
                s.take(n).lemma_filter_push(e, mine);
                s.take(n).lemma_filter_push(e, others);
            }
            if e.device_id == device {
                out.push(e);
            } else {
                keep.push(e);
            }
            proof {
                assert(rest@ =~= s.skip(n + 1));
                n = n + 1;
            }
        }
        proof {
            assert(n == s.len());
            assert(s.take(n) =~= s);
            assert(mine =~= (|e: InputEvent| e.device_id == device));
            assert(others =~= (|e: InputEvent| e.device_id != device));
            lemma_filter_wf(s, others);
        }
        self.pending = keep;
        out
    }

    /// Flushes every pending sample, in sequence order (e.g. once per frame, so
    /// coalescing never adds more than a frame of latency).
    pub fn drain_all(&mut self) -> (out: Vec<InputEvent>)
        requires
            old(self).wf(),
        ensures
            final(self).wf(),
            out@ == old(self)@,
            final(self)@ == Seq::<InputEvent>::empty(),
    {
        let mut out: Vec<InputEvent> = Vec::new();
        std::mem::swap(&mut out, &mut self.pending);
        out
    }
}

/// Inserting a sample from another device, or removing one, leaves a device's own
/// samples as they were.
proof fn lemma_of_device_insert_remove(s: Seq<InputEvent>, a: InputDeviceId, p: int, e: InputEvent)
    requires
        0 <= p <= s.len(),
        e.device_id != a,
    ensures
        of_device(s.insert(p, e), a) == of_device(s, a),
        p < s.len() && s[p].device_id != a ==> of_device(s.remove(p), a) == of_device(s, a),
{
    let f = |x: InputEvent| x.device_id == a;
    assert(s.insert(p, e) =~= s.take(p) + seq![e] + s.skip(p));
    assert(s =~= s.take(p) + s.skip(p));
    Seq::filter_distributes_over_add(s.take(p) + seq![e], s.skip(p), f);
    Seq::filter_distributes_over_add(s.take(p), seq![e], f);
    Seq::filter_distributes_over_add(s.take(p), s.skip(p), f);
    assert(seq![e].filter(f) =~= Seq::<InputEvent>::empty()) by {
        assert(!f(e));
        assert(seq![e] =~= Seq::<InputEvent>::empty().push(e));
        Seq::<InputEvent>::empty().lemma_filter_push(e, f);
        assert(Seq::<InputEvent>::empty().filter(f) =~= Seq::<InputEvent>::empty()) by {
            reveal(Seq::filter);
        }
    }
    if p < s.len() && s[p].device_id != a {
        assert(s.remove(p) =~= s.take(p) + s.skip(p + 1));
        assert(s.skip(p) =~= seq![s[p]] + s.skip(p + 1));
        Seq::filter_distributes_over_add(seq![s[p]], s.skip(p + 1), f);
        Seq::filter_distributes_over_add(s.take(p), s.skip(p + 1), f);
        assert(seq![s[p]].filter(f) =~= Seq::<InputEvent>::empty()) by {
            assert(!f(s[p]));
            assert(seq![s[p]] =~= Seq::<InputEvent>::empty().push(s[p]));
            Seq::<InputEvent>::empty().lemma_filter_push(s[p], f);
            assert(Seq::<InputEvent>::empty().filter(f) =~= Seq::<InputEvent>::empty()) by {
                reveal(Seq::filter);
            }
        }
    }
    assert(of_device(s.insert(p, e), a) =~= of_device(s, a));
}

/// An event that is never coalesced is delivered at once and last, right after every
/// pending sample of its own device (so a sample is never delivered after a button,
/// key, touch or hotplug event that followed it); those samples leave the pending
/// set and the samples of other devices stay pending.
pub proof fn law_transition_events_flush_their_device_first(pending: Seq<InputEvent>, event: InputEvent)
    requires
        spec_coalesce_key(event.payload) is None,
    ensures
        ({
            let (after, out) = spec_offer(pending, event);
            &&& out.len() == of_device(pending, event.device_id).len() + 1
            &&& out.last() == event
            &&& out.drop_last() == of_device(pending, event.device_id)
            &&& after == not_of_device(pending, event.device_id)
        }),
{
    let (after, out) = spec_offer(pending, event);
    assert(out.drop_last() =~= of_device(pending, event.device_id));
}

/// A coalescible event delivers nothing; afterwards exactly one pending sample occupies
/// its slot, and no other device's pending samples change. The samples stay coalescible,
/// in sequence order, one per slot.
pub proof fn law_coalescible_events_wait_in_their_slot(pending: Seq<InputEvent>, event: InputEvent, other: InputDeviceId)
    requires
        pending_wf(pending),
        spec_coalesce_key(event.payload) is Some,
        other != event.device_id,
    ensures
        ({
            let (after, out) = spec_offer(pending, event);
            &&& out.len() == 0
            &&& pending_wf(after)
            &&& exists|i: int| 0 <= i < after.len() && #[trigger] in_slot(after[i], event.device_id, event.source, spec_coalesce_key(event.payload)->0)
            &&& of_device(after, other) == of_device(pending, other)
        }),
{
    let key = spec_coalesce_key(event.payload)->0;
    let d = event.device_id;
    if exists|i: int| 0 <= i < pending.len() && #[trigger] in_slot(pending[i], d, event.source, key) {
        let i = choose|i: int| 0 <= i < pending.len() && #[trigger] in_slot(pending[i], d, event.source, key);
        let merged = spec_merge(pending[i], event);
        let r = pending.remove(i);
        lemma_remove_wf(pending, i);
        assert(spec_coalesce_key(merged.payload) == Some(key));
        assert forall|j: int| 0 <= j < r.len() implies !in_slot(#[trigger] r[j], merged.device_id, merged.source, key) by {
            let ij = if j < i { j } else { j + 1 };
            assert(r[j] == pending[ij]);
            if ij < i {
                assert(pending[ij].device_id != pending[i].device_id
                    || pending[ij].source != pending[i].source || spec_coalesce_key(pending[ij].payload) != spec_coalesce_key(pending[i].payload));
            } else {
                assert(pending[i].device_id != pending[ij].device_id
                    || pending[i].source != pending[ij].source || spec_coalesce_key(pending[i].payload) != spec_coalesce_key(pending[ij].payload));
            }
        }
        lemma_sorted_insert_wf(r, merged);
        let p = insert_pos(r, merged.sequence.0) as int;
        lemma_insert_pos(r, merged.sequence.0);
        assert(sorted_insert(r, merged)[p] == merged);
        lemma_of_device_insert_remove(pending, other, i, merged);
        lemma_of_device_insert_remove(r, other, p, merged);
        assert(of_device(sorted_insert(r, merged), other) == of_device(pending, other));
        assert(in_slot(sorted_insert(r, merged)[p], d, event.source, key));
        assert(spec_offer(pending, event).0 == sorted_insert(r, merged));
        let after = spec_offer(pending, event).0;
        assert(pending_wf(after));
        assert(spec_offer(pending, event).1.len() == 0);
        assert(of_device(after, other) == of_device(pending, other));
        assert(0 <= p < after.len() && in_slot(after[p], d, event.source, key));
    } else {
        assert forall|j: int| 0 <= j < pending.len() implies !in_slot(#[trigger] pending[j], d, event.source, key) by {}
        lemma_sorted_insert_wf(pending, event);
        let p = insert_pos(pending, event.sequence.0) as int;
        lemma_insert_pos(pending, event.sequence.0);
        assert(sorted_insert(pending, event)[p] == event);
        lemma_of_device_insert_remove(pending, other, p, event);
        assert(in_slot(sorted_insert(pending, event)[p], d, event.source, key));
        let after = spec_offer(pending, event).0;
        assert(after == sorted_insert(pending, event));
        assert(pending_wf(after));
        assert(spec_offer(pending, event).1.len() == 0);
        assert(of_device(after, other) == of_device(pending, other));
        assert(0 <= p < after.len() && in_slot(after[p], d, event.source, key));
    }
}

/// Samples of different sources never merge: after a coalescible event is offered, a
/// pending sample in the event's slot carries the event's source, every pending sample
/// from another source is still pending unchanged, and every pending sample from
/// another source was pending before. So synthetic motion or scrolling is never hidden
/// inside a physical sample, nor physical inside synthetic.
pub proof fn law_sources_never_share_a_sample(pending: Seq<InputEvent>, event: InputEvent)
    requires
        spec_coalesce_key(event.payload) is Some,
    ensures
        ({
            let (after, out) = spec_offer(pending, event);
            let key = spec_coalesce_key(event.payload)->0;
            &&& out.len() == 0
            &&& exists|i: int| 0 <= i < after.len() && #[trigger] in_slot(after[i], event.device_id, event.source, key)
            &&& forall|x: InputEvent| #[trigger] pending.contains(x) && x.source != event.source ==> after.contains(x)
            &&& forall|j: int| 0 <= j < after.len() && #[trigger] after[j].source != event.source ==> pending.contains(after[j])
        }),
{
    let key = spec_coalesce_key(event.payload)->0;
    let d = event.device_id;
    let (after, out) = spec_offer(pending, event);
    if exists|i: int| 0 <= i < pending.len() && #[trigger] in_slot(pending[i], d, event.source, key) {
        let c = choose|c: int| 0 <= c < pending.len() && #[trigger] in_slot(pending[c], d, event.source, key);
        let r = pending.remove(c);
        let merged = spec_merge(pending[c], event);
        let p = insert_pos(r, merged.sequence.0) as int;
        lemma_insert_pos(r, merged.sequence.0);
        assert(after == sorted_insert(r, merged));
        assert(after[p] == merged);
        assert(spec_coalesce_key(merged.payload) == Some(key));
        assert(in_slot(after[p], d, event.source, key));
        assert forall|x: InputEvent| #[trigger] pending.contains(x) && x.source != event.source implies after.contains(x) by {
            let m = choose|m: int| 0 <= m < pending.len() && pending[m] == x;
            assert(m != c);
            let k = if m < c { m } else { m - 1 };
            assert(r[k] == x);
            let j = if k < p { k } else { k + 1 };
            assert(after[j] == x);
        }
        assert forall|j: int| 0 <= j < after.len() && #[trigger] after[j].source != event.source implies pending.contains(
            after[j],
        ) by {
            assert(j != p);
            let k = if j < p { j } else { j - 1 };
            assert(after[j] == r[k]);
            let m = if k < c { k } else { k + 1 };
            assert(r[k] == pending[m]);
        }
    } else {
        let p = insert_pos(pending, event.sequence.0) as int;
        lemma_insert_pos(pending, event.sequence.0);
        assert(after == sorted_insert(pending, event));
        assert(after[p] == event);
        assert(in_slot(after[p], d, event.source, key));
        assert forall|x: InputEvent| #[trigger] pending.contains(x) && x.source != event.source implies after.contains(x) by {
            let m = choose|m: int| 0 <= m < pending.len() && pending[m] == x;
            let j = if m < p { m } else { m + 1 };
            assert(after[j] == x);
        }
        assert forall|j: int| 0 <= j < after.len() && #[trigger] after[j].source != event.source implies pending.contains(
            after[j],
        ) by {
            assert(j != p);
            let k = if j < p { j } else { j - 1 };
            assert(after[j] == pending[k]);
        }
    }
}

/// Relative motion merged into pending relative motion of the same device and source carries
/// the sum of both deltas (clamped to `i64`) and the newer sample's sequence number.
pub proof fn law_relative_motion_accumulates(pending: Seq<InputEvent>, event: InputEvent, i: int)
    requires
        pending_wf(pending),
        0 <= i < pending.len(),
        pending[i].device_id == event.device_id,
        pending[i].source == event.source,
        pending[i].payload matches InputEventPayload::Pointer(PointerEvent::MotionRelative { .. }),
        event.payload matches InputEventPayload::Pointer(PointerEvent::MotionRelative { .. }),
    ensures
        ({
            let (after, out) = spec_offer(pending, event);
            let (dx0, dy0) = match pending[i].payload {
                InputEventPayload::Pointer(PointerEvent::MotionRelative { dx, dy }) => (dx, dy),
                _ => (0i64, 0i64),
            };
            let (dx1, dy1) = match event.payload {
                InputEventPayload::Pointer(PointerEvent::MotionRelative { dx, dy }) => (dx, dy),
                _ => (0i64, 0i64),
            };
            &&& out.len() == 0
            &&& after.contains(InputEvent {
                timestamp: event.timestamp,
                sequence: event.sequence,
                device_id: event.device_id,
                source: event.source,
                modifiers: event.modifiers,
                payload: InputEventPayload::Pointer(
                    PointerEvent::MotionRelative { dx: saturating_sum(dx0, dx1), dy: saturating_sum(dy0, dy1) },
                ),
            })
        }),
{
    let key = CoalesceKey::Motion;
    let d = event.device_id;
    assert(in_slot(pending[i], d, event.source, key));
    let c = choose|c: int| 0 <= c < pending.len() && #[trigger] in_slot(pending[c], d, event.source, key);
    if c != i {
        if c < i {
            assert(pending[c].device_id != pending[i].device_id
                || pending[c].source != pending[i].source || spec_coalesce_key(pending[c].payload) != spec_coalesce_key(pending[i].payload));
        } else {
            assert(pending[i].device_id != pending[c].device_id
                || pending[i].source != pending[c].source || spec_coalesce_key(pending[i].payload) != spec_coalesce_key(pending[c].payload));
        }
    }
    let r = pending.remove(i);
    let merged = spec_merge(pending[i], event);
    let p = insert_pos(r, merged.sequence.0) as int;
    lemma_insert_pos(r, merged.sequence.0);
    assert(sorted_insert(r, merged)[p] == merged);
}

/// Whatever a drain delivers is in sequence order.
pub proof fn law_drains_deliver_in_sequence_order(pending: Seq<InputEvent>, device: InputDeviceId)
    requires
        pending_wf(pending),
    ensures
        sorted_by_sequence(of_device(pending, device)),
        sorted_by_sequence(pending),
        pending_wf(not_of_device(pending, device)),
{
    lemma_filter_wf(pending, |e: InputEvent| e.device_id == device);
    lemma_filter_wf(pending, |e: InputEvent| e.device_id != device);
}

/// Offering an event numbered at or above every pending sample keeps the pending
/// samples well-formed and numbered at most the event's number, and delivers in
/// sequence order, every delivered event numbered at most the event's number.
pub proof fn lemma_offer_sequencing(pending: Seq<InputEvent>, event: InputEvent)
    requires
        pending_wf(pending),
        forall|i: int| 0 <= i < pending.len() ==> #[trigger] pending[i].sequence.0 <= event.sequence.0,
    ensures
        ({
            let (after, out) = spec_offer(pending, event);
            &&& pending_wf(after)
            &&& forall|i: int| 0 <= i < after.len() ==> #[trigger] after[i].sequence.0 <= event.sequence.0
            &&& sorted_by_sequence(out)
            &&& forall|i: int| 0 <= i < out.len() ==> #[trigger] out[i].sequence.0 <= event.sequence.0
        }),
{
    let d = event.device_id;
    match spec_coalesce_key(event.payload) {
        Some(key) => {
            let other = InputDeviceId(if d.0 == 0 { 1 } else { 0 });
            law_coalescible_events_wait_in_their_slot(pending, event, other);
            let after = spec_offer(pending, event).0;
            if exists|i: int| 0 <= i < pending.len() && #[trigger] in_slot(pending[i], d, event.source, key) {
                let i = choose|i: int| 0 <= i < pending.len() && #[trigger] in_slot(pending[i], d, event.source, key);
                let r = pending.remove(i);
                let merged = spec_merge(pending[i], event);
                let p = insert_pos(r, merged.sequence.0) as int;
                lemma_insert_pos(r, merged.sequence.0);
                assert forall|j: int| 0 <= j < after.len() implies #[trigger] after[j].sequence.0 <= event.sequence.0 by {
                    if j < p {
                        assert(after[j] == r[j]);
                    } else if j > p {
                        assert(after[j] == r[j - 1]);
                    }
                    if j != p {
                        let jj = if j < p { j } else { j - 1 };
                        let k = if jj < i { jj } else { jj + 1 };
                        assert(r[jj] == pending[k]);
                    }
                }
            } else {
                let p = insert_pos(pending, event.sequence.0) as int;
                lemma_insert_pos(pending, event.sequence.0);
                assert forall|j: int| 0 <= j < after.len() implies #[trigger] after[j].sequence.0 <= event.sequence.0 by {
                    if j < p {
                        assert(after[j] == pending[j]);
                    } else if j > p {
                        assert(after[j] == pending[j - 1]);
                    }
                }
            }
        },
        None => {
            law_transition_events_flush_their_device_first(pending, event);
            law_drains_deliver_in_sequence_order(pending, d);
            let (after, out) = spec_offer(pending, event);
            let mine = of_device(pending, d);
            assert forall|j: int| 0 <= j < mine.len() implies #[trigger] mine[j].sequence.0 <= event.sequence.0 by {
                assert(mine.contains(mine[j]));
                pending.lemma_filter_contains_rev(|e: InputEvent| e.device_id == d, mine[j]);
            }
            assert forall|j: int| 0 <= j < after.len() implies #[trigger] after[j].sequence.0 <= event.sequence.0 by {
                assert(after.contains(after[j]));
                pending.lemma_filter_contains_rev(|e: InputEvent| e.device_id != d, after[j]);
            }
            assert forall|a: int, b: int| 0 <= a < b < out.len() implies #[trigger] out[a].sequence.0 <= #[trigger] out[b].sequence.0 by {
                if b < out.len() - 1 {
                    assert(out[a] == mine[a] && out[b] == mine[b]);
                } else {
                    assert(out[a] == mine[a]);
                }
            }
            assert forall|j: int| 0 <= j < out.len() implies #[trigger] out[j].sequence.0 <= event.sequence.0 by {
                if j < out.len() - 1 {
                    assert(out[j] == mine[j]);
                }
            }
        },
    }
}

/// The samples of device `d` in `s` are all numbered above `bound`.
pub open spec fn device_numbered_above(s: Seq<InputEvent>, d: InputDeviceId, bound: u64) -> bool {
    forall|i: int| 0 <= i < s.len() && #[trigger] s[i].device_id == d ==> s[i].sequence.0 > bound
}

/// Offering never lets a device's events fall back behind `bound`: if the device's
/// pending samples, and the event when it is the device's, are numbered above
/// `bound`, then so is everything of the device that is delivered or left pending.
/// The device's samples left pending are numbered above every event of the device
/// this offer delivers.
pub proof fn lemma_offer_device_order(pending: Seq<InputEvent>, event: InputEvent, d: InputDeviceId, bound: u64)
    requires
        pending_wf(pending),
        device_numbered_above(pending, d, bound),
        event.device_id == d ==> event.sequence.0 > bound,
    ensures
        ({
            let (after, out) = spec_offer(pending, event);
            &&& device_numbered_above(out, d, bound)
            &&& device_numbered_above(after, d, bound)
            &&& forall|i: int, j: int|
                0 <= i < after.len() && 0 <= j < out.len() && #[trigger] after[i].device_id == d
                    && #[trigger] out[j].device_id == d ==> after[i].sequence.0 > out[j].sequence.0
        }),
{
    let e = event.device_id;
    let (after, out) = spec_offer(pending, event);
    match spec_coalesce_key(event.payload) {
        Some(key) => {
            if exists|i: int| 0 <= i < pending.len() && #[trigger] in_slot(pending[i], e, event.source, key) {
                let i = choose|i: int| 0 <= i < pending.len() && #[trigger] in_slot(pending[i], e, event.source, key);
                let r = pending.remove(i);
                let merged = spec_merge(pending[i], event);
                let p = insert_pos(r, merged.sequence.0) as int;
                lemma_insert_pos(r, merged.sequence.0);
                assert forall|j: int| 0 <= j < after.len() && #[trigger] after[j].device_id == d implies after[j].sequence.0
                    > bound by {
                    if j != p {
                        let jj = if j < p { j } else { j - 1 };
                        let k = if jj < i { jj } else { jj + 1 };
                        assert(after[j] == r[jj]);
                        assert(r[jj] == pending[k]);
                    }
                }
            } else {
                let p = insert_pos(pending, event.sequence.0) as int;
                lemma_insert_pos(pending, event.sequence.0);
                assert forall|j: int| 0 <= j < after.len() && #[trigger] after[j].device_id == d implies after[j].sequence.0
                    > bound by {
                    if j < p {
                        assert(after[j] == pending[j]);
                    } else if j > p {
                        assert(after[j] == pending[j - 1]);
                    }
                }
            }
        },
        None => {
            law_transition_events_flush_their_device_first(pending, event);
            let mine = of_device(pending, e);
            assert forall|j: int| 0 <= j < out.len() && #[trigger] out[j].device_id == d implies out[j].sequence.0 > bound by {
                if j < out.len() - 1 {
                    assert(out[j] == mine[j]);
                    assert(mine.contains(mine[j]));
                    pending.lemma_filter_contains_rev(|x: InputEvent| x.device_id == e, mine[j]);
                }
            }
            assert forall|j: int| 0 <= j < after.len() && #[trigger] after[j].device_id == d implies after[j].sequence.0
                > bound by {
                assert(after.contains(after[j]));
                pending.lemma_filter_contains_rev(|x: InputEvent| x.device_id != e, after[j]);
            }
            assert forall|i: int, j: int|
                0 <= i < after.len() && 0 <= j < out.len() && #[trigger] after[i].device_id == d
                    && #[trigger] out[j].device_id == d implies after[i].sequence.0 > out[j].sequence.0 by {
                assert(after.contains(after[i]));
                pending.lemma_filter_contains_rev(|x: InputEvent| x.device_id != e, after[i]);
                assert(after[i].device_id != e);
                if j < out.len() - 1 {
                    assert(out[j] == mine[j]);
                    assert(mine.contains(mine[j]));
                    pending.lemma_filter_contains_rev(|x: InputEvent| x.device_id == e, mine[j]);
                }
            }
        },
    }
}


/// `s` is in strictly increasing sequence-number order.
pub open spec fn strictly_ordered(s: Seq<InputEvent>) -> bool {
    forall|i: int, j: int| 0 <= i < j < s.len() ==> #[trigger] s[i].sequence.0 < #[trigger] s[j].sequence.0
}

/// Keeping only some samples keeps them in strictly increasing order.
pub proof fn lemma_filter_keeps_strict_order(s: Seq<InputEvent>, p: spec_fn(InputEvent) -> bool)
    requires
        strictly_ordered(s),
    ensures
        strictly_ordered(s.filter(p)),
    decreases s.len(),
{
    reveal(Seq::filter);
    if s.len() > 0 {
        let t = s.drop_last();
        let last = s.last();
        assert(strictly_ordered(t)) by {
            assert forall|a: int, b: int| 0 <= a < b < t.len() implies #[trigger] t[a].sequence.0 < #[trigger] t[b].sequence.0 by {
                assert(s[a].sequence.0 < s[b].sequence.0);
            }
        }
        lemma_filter_keeps_strict_order(t, p);
        let f = t.filter(p);
        if p(last) {
            let r = f.push(last);
            assert(s.filter(p) == r);
            assert forall|a: int, b: int| 0 <= a < b < r.len() implies #[trigger] r[a].sequence.0 < #[trigger] r[b].sequence.0 by {
                if b == r.len() - 1 {
                    assert(f.contains(f[a]));
                    t.lemma_filter_contains_rev(p, f[a]);
                    let j = choose|j: int| 0 <= j < t.len() && t[j] == f[a];
                    assert(s[j].sequence.0 < s[s.len() - 1].sequence.0);
                }
            }
        } else {
            assert(s.filter(p) == f);
        }
    }
}

/// Offering an event numbered above every pending sample keeps the pending samples in
/// strictly increasing order.
pub proof fn lemma_offer_keeps_strict_order(pending: Seq<InputEvent>, event: InputEvent)
    requires
        strictly_ordered(pending),
        forall|i: int| 0 <= i < pending.len() ==> #[trigger] pending[i].sequence.0 < event.sequence.0,
    ensures
        strictly_ordered(spec_offer(pending, event).0),
{
    let d = event.device_id;
    let after = spec_offer(pending, event).0;
    match spec_coalesce_key(event.payload) {
        Some(key) => {
            if exists|i: int| 0 <= i < pending.len() && #[trigger] in_slot(pending[i], d, event.source, key) {
                let c = choose|c: int| 0 <= c < pending.len() && #[trigger] in_slot(pending[c], d, event.source, key);
                let r = pending.remove(c);
                let merged = spec_merge(pending[c], event);
                assert forall|j: int| 0 <= j < r.len() implies #[trigger] r[j].sequence.0 <= merged.sequence.0 by {
                    let m = if j < c { j } else { j + 1 };
                    assert(r[j] == pending[m]);
                }
                lemma_insert_pos_unique(r, merged.sequence.0, r.len() as int);
                assert(after =~= r.push(merged));
                assert forall|a: int, b: int| 0 <= a < b < after.len() implies #[trigger] after[a].sequence.0
                    < #[trigger] after[b].sequence.0 by {
                    let ma = if a < c { a } else { a + 1 };
                    assert(r[a] == pending[ma]);
                    if b < r.len() {
                        let mb = if b < c { b } else { b + 1 };
                        assert(r[b] == pending[mb]);
                    }
                }
            } else {
                assert forall|j: int| 0 <= j < pending.len() implies #[trigger] pending[j].sequence.0 <= event.sequence.0 by {}
                lemma_insert_pos_unique(pending, event.sequence.0, pending.len() as int);
                assert(after =~= pending.push(event));
            }
        },
        None => {
            lemma_filter_keeps_strict_order(pending, |x: InputEvent| x.device_id != d);
        },
    }
}


/// A coalescible event always leaves a waiting sample in its own slot stamped like
/// itself: same sequence number, timestamp and modifiers (merging keeps the newer
/// stamp), so a sample is never delivered with the modifiers of an older one.
pub proof fn law_offered_sample_carries_its_stamp(pending: Seq<InputEvent>, event: InputEvent)
    requires
        spec_coalesce_key(event.payload) is Some,
    ensures
        ({
            let (after, out) = spec_offer(pending, event);
            let key = spec_coalesce_key(event.payload)->0;
            &&& out.len() == 0
            &&& exists|i: int|
                0 <= i < after.len() && #[trigger] in_slot(after[i], event.device_id, event.source, key)
                    && after[i].sequence == event.sequence && after[i].timestamp == event.timestamp
                    && after[i].modifiers == event.modifiers
        }),
{
    let key = spec_coalesce_key(event.payload)->0;
    let d = event.device_id;
    let after = spec_offer(pending, event).0;
    if exists|i: int| 0 <= i < pending.len() && #[trigger] in_slot(pending[i], d, event.source, key) {
        let c = choose|c: int| 0 <= c < pending.len() && #[trigger] in_slot(pending[c], d, event.source, key);
        let r = pending.remove(c);
        let merged = spec_merge(pending[c], event);
        let p = insert_pos(r, merged.sequence.0) as int;
        lemma_insert_pos(r, merged.sequence.0);
        assert(after == sorted_insert(r, merged));
        assert(after[p] == merged);
        assert(in_slot(after[p], d, event.source, key));
    } else {
        let p = insert_pos(pending, event.sequence.0) as int;
        lemma_insert_pos(pending, event.sequence.0);
        assert(after == sorted_insert(pending, event));
        assert(after[p] == event);
        assert(in_slot(after[p], d, event.source, key));
    }
}

/// Whether a payload is a scroll on `axis`.
pub open spec fn scroll_on(payload: InputEventPayload, axis: ScrollAxis) -> bool {
    payload matches InputEventPayload::Pointer(PointerEvent::Scroll { axis: a, .. }) && a == axis
}

/// Each scroll axis has its own slot, apart from motion: offering a scroll on one axis
/// leaves every waiting sample that is not a scroll on that same axis exactly as it
/// was (scrolls on the other axis and motion samples are never merged into it), and
/// the sample it leaves in its slot is a scroll on its axis.
pub proof fn law_scroll_axes_have_their_own_slots(pending: Seq<InputEvent>, event: InputEvent, axis: ScrollAxis)
    requires
        pending_wf(pending),
        scroll_on(event.payload, axis),
    ensures
        ({
            let (after, out) = spec_offer(pending, event);
            &&& out.len() == 0
            &&& forall|x: InputEvent| #[trigger] pending.contains(x) && !scroll_on(x.payload, axis) ==> after.contains(x)
            &&& exists|i: int|
                0 <= i < after.len() && #[trigger] after[i].device_id == event.device_id && after[i].source
                    == event.source && scroll_on(after[i].payload, axis) && after[i].sequence == event.sequence
        }),
{
    let key = spec_coalesce_key(event.payload)->0;
    let d = event.device_id;
    let after = spec_offer(pending, event).0;
    if exists|i: int| 0 <= i < pending.len() && #[trigger] in_slot(pending[i], d, event.source, key) {
        let c = choose|c: int| 0 <= c < pending.len() && #[trigger] in_slot(pending[c], d, event.source, key);
        let r = pending.remove(c);
        let merged = spec_merge(pending[c], event);
        assert(scroll_on(pending[c].payload, axis));
        let p = insert_pos(r, merged.sequence.0) as int;
        lemma_insert_pos(r, merged.sequence.0);
        assert(after == sorted_insert(r, merged));
        assert(after[p] == merged);
        assert(scroll_on(after[p].payload, axis));
        assert(after[p].device_id == d && after[p].source == event.source && after[p].sequence == event.sequence);
        assert forall|x: InputEvent| #[trigger] pending.contains(x) && !scroll_on(x.payload, axis) implies after.contains(x) by {
            let m = choose|m: int| 0 <= m < pending.len() && pending[m] == x;
            assert(m != c);
            let k = if m < c { m } else { m - 1 };
            assert(r[k] == x);
            let j = if k < p { k } else { k + 1 };
            assert(after[j] == x);
        }
    } else {
        let p = insert_pos(pending, event.sequence.0) as int;
        lemma_insert_pos(pending, event.sequence.0);
        assert(after == sorted_insert(pending, event));
        assert(after[p] == event);
        assert(after[p].device_id == d && after[p].source == event.source && scroll_on(after[p].payload, axis)
            && after[p].sequence == event.sequence);
        assert forall|x: InputEvent| #[trigger] pending.contains(x) && !scroll_on(x.payload, axis) implies after.contains(x) by {
            let m = choose|m: int| 0 <= m < pending.len() && pending[m] == x;
            let j = if m < p { m } else { m + 1 };
            assert(after[j] == x);
        }
    }
}

/// Merging a newer sample into a waiting one: two relative motions add their deltas and
/// two scrolls add theirs (clamped to `i64`; the waiting scroll keeps its axis and
/// resolution); otherwise, as for absolute motion, the newer payload replaces the older
/// one. The merged sample keeps its device and source and takes the newer sample's
/// timestamp, sequence number and modifiers.
pub proof fn law_merge_accumulates_or_replaces(existing: InputEvent, incoming: InputEvent)
    ensures
        ({
            let m = spec_merge(existing, incoming);
            &&& m.timestamp == incoming.timestamp && m.sequence == incoming.sequence
            &&& m.modifiers == incoming.modifiers
            &&& m.device_id == existing.device_id && m.source == existing.source
        }),
        existing.payload matches InputEventPayload::Pointer(PointerEvent::MotionRelative { dx: a, dy: b }) ==> (
        incoming.payload matches InputEventPayload::Pointer(PointerEvent::MotionRelative { dx: c, dy: d }) ==> (
        spec_merge(existing, incoming).payload matches InputEventPayload::Pointer(
            PointerEvent::MotionRelative { dx, dy },
        ) && dx == (if a + c > i64::MAX { i64::MAX as int } else if a + c < i64::MIN { i64::MIN as int } else { a + c })
            && dy == (if b + d > i64::MAX { i64::MAX as int } else if b + d < i64::MIN { i64::MIN as int } else { b + d }))),
        existing.payload matches InputEventPayload::Pointer(PointerEvent::Scroll { axis: ax, delta: d0, high_resolution: hr }) ==> (
        incoming.payload matches InputEventPayload::Pointer(PointerEvent::Scroll { delta: d1, .. }) ==> (
        spec_merge(existing, incoming).payload matches InputEventPayload::Pointer(
            PointerEvent::Scroll { axis, delta, high_resolution },
        ) && axis == ax && high_resolution == hr
            && delta == (if d0 + d1 > i64::MAX { i64::MAX as int } else if d0 + d1 < i64::MIN { i64::MIN as int } else { d0 + d1 }))),
        !(existing.payload is Pointer && incoming.payload is Pointer) ==> spec_merge(existing, incoming).payload
            == incoming.payload,
        incoming.payload matches InputEventPayload::Pointer(PointerEvent::MotionAbsolute { .. })
            ==> spec_merge(existing, incoming).payload == incoming.payload,
{
}

/// Offering a sample whose slot already holds one merges the two: nothing is
/// delivered, and the waiting sample of that slot becomes the merge of the older one
/// with the newer.
pub proof fn law_offer_merges_into_its_slot(pending: Seq<InputEvent>, event: InputEvent, i: int)
    requires
        pending_wf(pending),
        spec_coalesce_key(event.payload) is Some,
        0 <= i < pending.len(),
        in_slot(pending[i], event.device_id, event.source, spec_coalesce_key(event.payload)->0),
    ensures
        ({
            let (after, out) = spec_offer(pending, event);
            &&& out.len() == 0
            &&& after.contains(spec_merge(pending[i], event))
        }),
{
    let key = spec_coalesce_key(event.payload)->0;
    let d = event.device_id;
    let c = choose|c: int| 0 <= c < pending.len() && #[trigger] in_slot(pending[c], d, event.source, key);
    if c != i {
        if c < i {
            assert(pending[c].device_id != pending[i].device_id
                || pending[c].source != pending[i].source || spec_coalesce_key(pending[c].payload) != spec_coalesce_key(pending[i].payload));
        } else {
            assert(pending[i].device_id != pending[c].device_id
                || pending[i].source != pending[c].source || spec_coalesce_key(pending[i].payload) != spec_coalesce_key(pending[c].payload));
        }
    }
    let r = pending.remove(i);
    let merged = spec_merge(pending[i], event);
    let p = insert_pos(r, merged.sequence.0) as int;
    lemma_insert_pos(r, merged.sequence.0);
    assert(sorted_insert(r, merged)[p] == merged);
}

} // verus!
