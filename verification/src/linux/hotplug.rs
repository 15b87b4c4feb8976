//! Hotplug bookkeeping of the evdev backend: which event nodes have been announced,
//! and under which device id, so that a node is announced once and its disappearance
//! is reported for the right device.

use crate::backend::BackendEvent;
use crate::device::InputDevice;
use crate::ids::{is_uuid_v4, InputDeviceId};
use crate::linux::device::{describe, describes, DeviceProbe};
use vstd::prelude::*;
use vstd::seq_lib::lemma_seq_contains_after_push;

verus! {

/// The paths of a list of announced nodes.
pub open spec fn paths_of(entries: Seq<(Seq<char>, InputDeviceId)>) -> Seq<Seq<char>> {
    entries.map_values(|e: (Seq<char>, InputDeviceId)| e.0)
}

/// No path is announced twice.
pub open spec fn distinct_paths(entries: Seq<(Seq<char>, InputDeviceId)>) -> bool {
    forall|i: int, j: int| 0 <= i < j < entries.len() ==> #[trigger] entries[i].0 != #[trigger] entries[j].0
}

/// The paths of found nodes, as text.
pub open spec fn found_paths(found: Seq<(String, DeviceProbe)>) -> Seq<Seq<char>> {
    found.map_values(|f: (String, DeviceProbe)| f.0@)
}

/// Which of `paths` a scan announces, as indices in discovery order: those neither
/// `known` nor seen earlier in the same scan.
pub open spec fn fresh_indices(known: Seq<Seq<char>>, paths: Seq<Seq<char>>) -> Seq<int>
    decreases paths.len(),
{
    if paths.len() == 0 {
        Seq::empty()
    } else {
        let i = paths.len() - 1;
        let earlier = fresh_indices(known, paths.drop_last());
        if known.contains(paths[i]) || paths.drop_last().contains(paths[i]) {
            earlier
        } else {
            earlier.push(i)
        }
    }
}

/// A node stays known while it is still present.
pub open spec fn still_present(present: Seq<Seq<char>>) -> spec_fn((Seq<char>, InputDeviceId)) -> bool {
    |e: (Seq<char>, InputDeviceId)| present.contains(e.0)
}

/// A node is reported removed once it is no longer present.
pub open spec fn gone(present: Seq<Seq<char>>) -> spec_fn((Seq<char>, InputDeviceId)) -> bool {
    |e: (Seq<char>, InputDeviceId)| !present.contains(e.0)
}

/// The removal report of one node.
pub open spec fn removal(e: (Seq<char>, InputDeviceId)) -> BackendEvent {
    BackendEvent::DeviceRemoved(e.1)
}

/// The evdev nodes announced so far, each with the id it was announced under, in
/// announcement order.
pub struct KnownDevices {
    entries: Vec<(String, InputDeviceId)>,
}

impl View for KnownDevices {
    type V = Seq<(Seq<char>, InputDeviceId)>;

    closed spec fn view(&self) -> Seq<(Seq<char>, InputDeviceId)> {
        self.entries@.map_values(|e: (String, InputDeviceId)| (e.0@, e.1))
    }
}

impl KnownDevices {
    /// Each node is known once.
    pub closed spec fn wf(&self) -> bool {
        distinct_paths(self@)
    }

    pub fn new() -> (k: KnownDevices)
        ensures
            k.wf(),
            k@ == Seq::<(Seq<char>, InputDeviceId)>::empty(),
    {
        let k = KnownDevices { entries: Vec::new() };
        proof {
            assert(k@ =~= Seq::<(Seq<char>, InputDeviceId)>::empty());
        }
        k
    }

    /// Whether the node at `path` has been announced.
    pub fn contains(&self, path: &String) -> (b: bool)
        ensures
            b == paths_of(self@).contains(path@),
    {
        let mut i: usize = 0;
        while i < self.entries.len()
            invariant
                0 <= i <= self.entries@.len(),
                forall|j: int| 0 <= j < i ==> #[trigger] self@[j].0 != path@,
            decreases self.entries@.len() - i,
        {
            if self.entries[i].0 == *path {
                proof {
                    assert(paths_of(self@)[i as int] == path@);
                }
                return true;
            }
            i = i + 1;
        }
        proof {
            if paths_of(self@).contains(path@) {
                let j = choose|j: int| 0 <= j < paths_of(self@).len() && paths_of(self@)[j] == path@;
                assert(self@[j].0 == path@);
            }
        }
        false
    }

    /// The paths of the announced nodes, in announcement order.
    pub fn paths(&self) -> (r: Vec<String>)
        ensures
            r@.map_values(|s: String| s@) == paths_of(self@),
    {
        let mut r: Vec<String> = Vec::new();
        let mut i: usize = 0;
        while i < self.entries.len()
            invariant
                0 <= i <= self.entries@.len(),
                r@.map_values(|s: String| s@) == paths_of(self@).take(i as int),
            decreases self.entries@.len() - i,
        {
            let ghost before = r@;
            r.push(self.entries[i].0.clone());
            proof {
                assert(r@.map_values(|s: String| s@) =~= before.map_values(|s: String| s@).push(self@[i as int].0));
                assert(paths_of(self@).take(i + 1) =~= paths_of(self@).take(i as int).push(self@[i as int].0));
            }
            i = i + 1;
        }
        proof {
            assert(paths_of(self@).take(i as int) =~= paths_of(self@));
        }
        r
    }
}

/// How the nodes a scan announces grow by one scanned path.
proof fn lemma_fresh_step(known: Seq<Seq<char>>, paths: Seq<Seq<char>>, i: int)
    requires
        0 <= i < paths.len(),
    ensures
        fresh_indices(known, paths.take(i + 1)) == if known.contains(paths[i]) || paths.take(i).contains(paths[i]) {
            fresh_indices(known, paths.take(i))
        } else {
            fresh_indices(known, paths.take(i)).push(i)
        },
{
    assert(paths.take(i + 1).drop_last() =~= paths.take(i));
}

/// The paths known after one scanned path: the earlier known ones, and that path.
proof fn lemma_known_step(
    known_after: Seq<Seq<char>>,
    known_before: Seq<Seq<char>>,
    start: Seq<Seq<char>>,
    paths: Seq<Seq<char>>,
    i: int,
)
    requires
        0 <= i < paths.len(),
        forall|p: Seq<char>| known_before.contains(p) <==> (start.contains(p) || paths.take(i).contains(p)),
        forall|p: Seq<char>| known_after.contains(p) <==> (known_before.contains(p) || p == paths[i]),
    ensures
        forall|p: Seq<char>| known_after.contains(p) <==> (start.contains(p) || paths.take(i + 1).contains(p)),
{
    assert(paths.take(i + 1) =~= paths.take(i).push(paths[i]));
    assert forall|p: Seq<char>| known_after.contains(p) <==> (start.contains(p) || paths.take(i + 1).contains(p)) by {
        lemma_seq_contains_after_push(paths.take(i), paths[i], p);
    }
}

/// Appending a device with a version-4 id to devices that all have one keeps that so.
proof fn lemma_fresh_ids_push(devices: Seq<InputDevice>, d: InputDevice)
    requires
        forall|k: int| 0 <= k < devices.len() ==> is_uuid_v4(#[trigger] devices[k].id.0),
        is_uuid_v4(d.id.0),
    ensures
        forall|k: int| 0 <= k < devices.push(d).len() ==> is_uuid_v4(#[trigger] devices.push(d)[k].id.0),
{
    assert forall|k: int| 0 <= k < devices.push(d).len() implies is_uuid_v4(#[trigger] devices.push(d)[k].id.0) by {
        if k < devices.len() {
            assert(devices.push(d)[k] == devices[k]);
        }
    }
}

/// When the known paths are the earlier ones and all scanned ones, every scanned path
/// is known.
proof fn lemma_all_found_known(known: Seq<Seq<char>>, start: Seq<Seq<char>>, paths: Seq<Seq<char>>)
    requires
        forall|p: Seq<char>| known.contains(p) <==> (start.contains(p) || paths.take(paths.len() as int).contains(p)),
    ensures
        forall|k: int| 0 <= k < paths.len() ==> known.contains(#[trigger] paths[k]),
{
    assert(paths.take(paths.len() as int) =~= paths);
    assert forall|k: int| 0 <= k < paths.len() implies known.contains(#[trigger] paths[k]) by {
        assert(paths.contains(paths[k]));
    }
}

/// One scan of the device nodes `found` (each with its path and probe): every node not
/// known yet is described under a fresh id, becomes known, and is returned for
/// announcing, in discovery order. Nodes already known are left alone.
pub fn scan_and_report_new(known: &mut KnownDevices, found: Vec<(String, DeviceProbe)>) -> (out: Vec<InputDevice>)
    requires
        old(known).wf(),
    ensures
        final(known).wf(),
        out@.len() == fresh_indices(paths_of(old(known)@), found_paths(found@)).len(),
        forall|k: int|
            0 <= k < out@.len() ==> {
                let i = fresh_indices(paths_of(old(known)@), found_paths(found@))[k];
                &&& 0 <= i < found@.len()
                &&& describes(#[trigger] out@[k], found@[i].0@, found@[i].1)
                &&& is_uuid_v4(out@[k].id.0)
            },
        forall|i: int| 0 <= i < found@.len() ==> paths_of(final(known)@).contains(#[trigger] found_paths(found@)[i]),
        final(known)@ == old(known)@ + Seq::new(
            out@.len(),
            |k: int| (found_paths(found@)[fresh_indices(paths_of(old(known)@), found_paths(found@))[k]], out@[k].id),
        ),
{
    let ghost start = known@;
    let ghost paths = found_paths(found@);
    let ghost mut fresh: Seq<int> = Seq::empty();
    let mut out: Vec<InputDevice> = Vec::new();
    let mut i: usize = 0;
    proof {
        assert(paths.take(0) =~= Seq::<Seq<char>>::empty());
        assert(known@ =~= start + Seq::new(0, |k: int| (paths[fresh[k]], out@[k].id)));
    }
    while i < found.len()
        invariant
            0 <= i <= found@.len(),
            paths == found_paths(found@),
            fresh == fresh_indices(paths_of(start), paths.take(i as int)),
            known.wf(),
            forall|p: Seq<char>| paths_of(known@).contains(p) <==> (paths_of(start).contains(p) || paths.take(i as int).contains(p)),
            out@.len() == fresh.len(),
            forall|k: int| 0 <= k < out@.len() ==> 0 <= #[trigger] fresh[k] < i,
            forall|k: int| 0 <= k < out@.len() ==> describes(#[trigger] out@[k], found@[fresh[k]].0@, found@[fresh[k]].1),
            forall|k: int| 0 <= k < out@.len() ==> is_uuid_v4(#[trigger] out@[k].id.0),
            known@ == start + Seq::new(out@.len(), |k: int| (paths[fresh[k]], out@[k].id)),
        decreases found@.len() - i,
    {
        let ghost before_known = known@;
        let ghost before_out = out@;
        proof {
            lemma_fresh_step(paths_of(start), paths, i as int);
            assert(paths.take(i + 1)[i as int] == paths[i as int]);
            assert(paths[i as int] == found@[i as int].0@);
        }
        let path = &found[i].0;
        let probe = &found[i].1;
        let is_known = known.contains(path);
        if !is_known {
            let d = describe(path.as_str(), probe);
            let id = d.id;
            let ghost dv = d;
            known.entries.push((path.clone(), id));
            out.push(d);
            proof {
                fresh = fresh.push(i as int);
                assert(known@ =~= before_known.push((path@, id)));
                assert(paths_of(known@) =~= paths_of(before_known).push(path@));
                assert forall|p: Seq<char>|
                    paths_of(known@).contains(p) <==> (paths_of(before_known).contains(p) || p == paths[i as int]) by {
                    lemma_seq_contains_after_push(paths_of(before_known), path@, p);
                }
                lemma_known_step(paths_of(known@), paths_of(before_known), paths_of(start), paths, i as int);
                assert forall|a: int, b: int| 0 <= a < b < known@.len() implies #[trigger] known@[a].0
                    != #[trigger] known@[b].0 by {
                    if b == known@.len() - 1 {
                        assert(paths_of(before_known)[a] == known@[a].0);
                    }
                }
                assert forall|k: int| 0 <= k < out@.len() implies describes(
                    #[trigger] out@[k],
                    found@[fresh[k]].0@,
                    found@[fresh[k]].1,
                ) by {
                    if k < before_out.len() {
                        assert(out@[k] == before_out[k]);
                    } else {
                        assert(out@[k] == dv);
                    }
                }
                assert(out@ == before_out.push(dv));
                lemma_fresh_ids_push(before_out, dv);
                assert(known@ =~= start + Seq::new(out@.len(), |k: int| (paths[fresh[k]], out@[k].id)));
            }
        } else {
            proof {
                assert(paths_of(known@).contains(paths[i as int]));
                lemma_known_step(paths_of(known@), paths_of(known@), paths_of(start), paths, i as int);
            }
        }
        i = i + 1;
    }
    proof {
        assert(paths.take(found@.len() as int) =~= paths);
        assert(i == found@.len() && paths.len() == found@.len());
        lemma_all_found_known(paths_of(known@), paths_of(start), paths);
    }
    out
}

/// A node is announced at most once: scanning again, while every found node is already
/// known, announces nothing.
pub proof fn law_rescan_announces_nothing(known: Seq<Seq<char>>, paths: Seq<Seq<char>>)
    requires
        forall|i: int| 0 <= i < paths.len() ==> known.contains(#[trigger] paths[i]),
    ensures
        fresh_indices(known, paths).len() == 0,
    decreases paths.len(),
{
    if paths.len() > 0 {
        let t = paths.drop_last();
        assert forall|i: int| 0 <= i < t.len() implies known.contains(#[trigger] t[i]) by {
            assert(t[i] == paths[i]);
        }
        law_rescan_announces_nothing(known, t);
        assert(known.contains(paths[paths.len() - 1]));
    }
}

/// Discovery misses nothing: after a scan, every found node is either one that was
/// known before or one the scan announced, and the scan announces only found nodes
/// that were not known.
pub proof fn law_scan_covers_every_found_node(known: Seq<Seq<char>>, paths: Seq<Seq<char>>)
    ensures
        forall|i: int|
            0 <= i < paths.len() ==> known.contains(#[trigger] paths[i]) || exists|k: int|
                0 <= k < fresh_indices(known, paths).len() && paths[fresh_indices(known, paths)[k]] == paths[i],
        forall|k: int|
            0 <= k < fresh_indices(known, paths).len() ==> 0 <= #[trigger] fresh_indices(known, paths)[k] < paths.len()
                && !known.contains(paths[fresh_indices(known, paths)[k]]),
    decreases paths.len(),
{
    if paths.len() > 0 {
        let t = paths.drop_last();
        let last = paths.len() - 1;
        law_scan_covers_every_found_node(known, t);
        let f = fresh_indices(known, paths);
        let ft = fresh_indices(known, t);
        assert forall|i: int| 0 <= i < paths.len() implies known.contains(#[trigger] paths[i]) || exists|k: int|
            0 <= k < f.len() && paths[f[k]] == paths[i] by {
            if i < last {
                assert(t[i] == paths[i]);
                if !known.contains(paths[i]) {
                    let k = choose|k: int| 0 <= k < ft.len() && t[ft[k]] == t[i];
                    assert(f[k] == ft[k]);
                    assert(paths[f[k]] == t[ft[k]]);
                }
            } else if !known.contains(paths[i]) {
                if t.contains(paths[i]) {
                    let j = choose|j: int| 0 <= j < t.len() && t[j] == paths[last];
                    assert(t[j] == paths[j]);
                    let k = choose|k: int| 0 <= k < ft.len() && t[ft[k]] == t[j];
                    assert(f[k] == ft[k]);
                } else {
                    assert(f[ft.len() as int] == last);
                }
            }
        }
        assert forall|k: int| 0 <= k < f.len() implies 0 <= #[trigger] f[k] < paths.len() && !known.contains(
            paths[f[k]],
        ) by {
            if k < ft.len() {
                assert(f[k] == ft[k]);
                assert(t[ft[k]] == paths[ft[k]]);
            }
        }
    }
}

/// Scanning the same nodes twice announces them once: after a scan that announced
/// `ids` (one per node it found new, as [`scan_and_report_new`] records them), a second
/// scan of the same nodes announces nothing.
pub proof fn law_second_scan_announces_nothing(
    start: Seq<(Seq<char>, InputDeviceId)>,
    paths: Seq<Seq<char>>,
    ids: Seq<InputDeviceId>,
)
    requires
        ids.len() == fresh_indices(paths_of(start), paths).len(),
    ensures
        fresh_indices(
            paths_of(
                start + Seq::new(ids.len(), |k: int| (paths[fresh_indices(paths_of(start), paths)[k]], ids[k])),
            ),
            paths,
        ).len() == 0,
{
    let f = fresh_indices(paths_of(start), paths);
    let added = Seq::new(ids.len(), |k: int| (paths[f[k]], ids[k]));
    let known = paths_of(start + added);
    law_scan_covers_every_found_node(paths_of(start), paths);
    assert forall|i: int| 0 <= i < paths.len() implies known.contains(#[trigger] paths[i]) by {
        if paths_of(start).contains(paths[i]) {
            let j = choose|j: int| 0 <= j < paths_of(start).len() && paths_of(start)[j] == paths[i];
            assert(known[j] == paths[i]);
        } else {
            let k = choose|k: int| 0 <= k < f.len() && paths[f[k]] == paths[i];
            assert(known[start.len() + k] == paths[i]);
        }
    }
    law_rescan_announces_nothing(known, paths);
}

/// Forgets every known node whose path is not among `present` and reports each as
/// removed, in announcement order; the others stay known, in order.
pub fn report_removed(known: &mut KnownDevices, present: &Vec<String>) -> (out: Vec<BackendEvent>)
    requires
        old(known).wf(),
    ensures
        final(known).wf(),
        final(known)@ == old(known)@.filter(still_present(present@.map_values(|s: String| s@))),
        out@ == old(known)@.filter(gone(present@.map_values(|s: String| s@))).map_values(
            |e: (Seq<char>, InputDeviceId)| removal(e),
        ),
{
    let ghost start = known@;
    let ghost here = present@.map_values(|s: String| s@);
    let mut kept: Vec<(String, InputDeviceId)> = Vec::new();
    let mut out: Vec<BackendEvent> = Vec::new();
    let mut i: usize = 0;
    while i < known.entries.len()
        invariant
            0 <= i <= known.entries@.len(),
            known@ == start,
            distinct_paths(start),
            here == present@.map_values(|s: String| s@),
            kept@.map_values(|e: (String, InputDeviceId)| (e.0@, e.1)) == start.take(i as int).filter(still_present(here)),
            out@ == start.take(i as int).filter(gone(here)).map_values(|e: (Seq<char>, InputDeviceId)| removal(e)),
        decreases known.entries@.len() - i,
    {
        let ghost e = start[i as int];
        proof {
            assert(start.take(i + 1) =~= start.take(i as int).push(e));
            start.take(i as int).lemma_filter_push(e, still_present(here));
            start.take(i as int).lemma_filter_push(e, gone(here));
            assert(known.entries@[i as int].0@ == e.0);
        }
        let is_present = contains_path(present, &known.entries[i].0);
        if is_present {
            let entry = (known.entries[i].0.clone(), known.entries[i].1);
            let ghost before = kept@;
            kept.push(entry);
            proof {
                assert(kept@.map_values(|e: (String, InputDeviceId)| (e.0@, e.1)) =~= before.map_values(
                    |e: (String, InputDeviceId)| (e.0@, e.1),
                ).push(e));
            }
        } else {
            let ghost before = out@;
            out.push(BackendEvent::DeviceRemoved(known.entries[i].1));
            proof {
                let g = start.take(i as int).filter(gone(here));
                assert(out@ =~= g.push(e).map_values(|x: (Seq<char>, InputDeviceId)| removal(x)));
            }
        }
        i = i + 1;
    }
    proof {
        assert(start.take(i as int) =~= start);
        let f = start.filter(still_present(here));
        assert forall|a: int, b: int| 0 <= a < b < f.len() implies #[trigger] f[a].0 != #[trigger] f[b].0 by {
            lemma_filter_keeps_distinct(start, still_present(here), a, b);
        }
    }
    known.entries = kept;
    out
}

/// A filter of a list with distinct paths has distinct paths.
proof fn lemma_filter_keeps_distinct(
    s: Seq<(Seq<char>, InputDeviceId)>,
    p: spec_fn((Seq<char>, InputDeviceId)) -> bool,
    a: int,
    b: int,
)
    requires
        distinct_paths(s),
        0 <= a < b < s.filter(p).len(),
    ensures
        s.filter(p)[a].0 != s.filter(p)[b].0,
    decreases s.len(),
{
    reveal(Seq::filter);
    let t = s.drop_last();
    let x = s.last();
    assert(s =~= t.push(x));
    t.lemma_filter_push(x, p);
    assert(distinct_paths(t)) by {
        assert forall|i: int, j: int| 0 <= i < j < t.len() implies #[trigger] t[i].0 != #[trigger] t[j].0 by {
            assert(t[i] == s[i] && t[j] == s[j]);
        }
    }
    if p(x) && b == s.filter(p).len() - 1 {
        let y = t.filter(p)[a];
        assert(s.filter(p)[a] == y);
        assert(t.filter(p).contains(y));
        t.lemma_filter_contains_rev(p, y);
        let k = choose|k: int| 0 <= k < t.len() && t[k] == y;
        assert(s[k] == y && s[s.len() - 1] == x);
    } else {
        lemma_filter_keeps_distinct(t, p, a, b);
    }
}

/// Whether `path` is among `present`.
fn contains_path(present: &Vec<String>, path: &String) -> (b: bool)
    ensures
        b == present@.map_values(|s: String| s@).contains(path@),
{
    let mut i: usize = 0;
    while i < present.len()
        invariant
            0 <= i <= present@.len(),
            forall|j: int| 0 <= j < i ==> #[trigger] present@[j]@ != path@,
        decreases present@.len() - i,
    {
        if present[i] == *path {
            proof {
                assert(present@.map_values(|s: String| s@)[i as int] == path@);
            }
            return true;
        }
        i = i + 1;
    }
    proof {
        let v = present@.map_values(|s: String| s@);
        if v.contains(path@) {
            let j = choose|j: int| 0 <= j < v.len() && v[j] == path@;
            assert(present@[j]@ == path@);
        }
    }
    false
}

} // verus!
