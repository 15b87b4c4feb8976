//! Delivery order over a whole run of the service: every backend report and every
//! frame flush, one after the other, and everything they deliver.

use crate::backend::BackendEvent;
use crate::coalesce::{
    lemma_filter_keeps_strict_order, lemma_filter_wf, lemma_offer_keeps_strict_order, lemma_offer_sequencing, not_of_device,
    of_device, pending_wf, spec_coalesce_key, spec_offer, strictly_ordered,
};
use crate::event::{event_views, InputEvent, InputEventPayload, InputEventPayloadView, InputEventView, KeyboardEventView};
use crate::ids::{SequenceNumber, Timestamp};
use crate::keyboard::{aggregate_modifiers_of, held_keys, modifiers_of, KeyboardLayout, Modifiers};
use crate::pointer::PointerEvent;
use crate::service::{key_action, spec_ingest, ServiceView};
use crate::source::InputSource;
use vstd::prelude::*;

verus! {

/// Motion and scroll samples, the only events that may be coalesced.
pub open spec fn view_is_coalescible(p: InputEventPayloadView) -> bool {
    match p {
        InputEventPayloadView::Pointer(PointerEvent::MotionRelative { .. }) => true,
        InputEventPayloadView::Pointer(PointerEvent::MotionAbsolute { .. }) => true,
        InputEventPayloadView::Pointer(PointerEvent::Scroll { .. }) => true,
        _ => false,
    }
}

/// One step of a service's life: a backend report with its source and arrival time
/// ([`crate::service::InputService::ingest_at`]), or a frame flush (`None`,
/// [`crate::service::InputService::flush_coalesced`]); the state after it and what it
/// delivers.
pub open spec fn service_step<L: KeyboardLayout>(
    layout: L,
    s: ServiceView,
    step: Option<(BackendEvent, InputSource, Timestamp)>,
) -> (ServiceView, Seq<InputEventView>) {
    match step {
        Some((event, source, now)) => spec_ingest(layout, s, event, source, now),
        None => (ServiceView { pending: Seq::empty(), ..s }, event_views(s.pending)),
    }
}

/// The state after `steps`, one after the other, and everything they deliver, in
/// delivery order.
pub open spec fn service_run<L: KeyboardLayout>(
    layout: L,
    s: ServiceView,
    steps: Seq<Option<(BackendEvent, InputSource, Timestamp)>>,
) -> (ServiceView, Seq<InputEventView>)
    decreases steps.len(),
{
    if steps.len() == 0 {
        (s, Seq::empty())
    } else {
        let (t, out) = service_run(layout, s, steps.drop_last());
        let (u, more) = service_step(layout, t, steps.last());
        (u, out + more)
    }
}

/// The order a delivered stream keeps: no sequence number is delivered twice; the
/// events of one device come in increasing sequence order; and events that are never
/// coalesced (keys, buttons, touch, hotplug, ...) come in increasing sequence order,
/// whatever their devices.
pub open spec fn stream_ordered(out: Seq<InputEventView>) -> bool {
    &&& forall|i: int, j: int| 0 <= i < j < out.len() ==> #[trigger] out[i].sequence.0 != #[trigger] out[j].sequence.0
    &&& forall|i: int, j: int|
        0 <= i < j < out.len() && #[trigger] out[i].device_id == #[trigger] out[j].device_id ==> out[i].sequence.0
            < out[j].sequence.0
    &&& forall|i: int, j: int|
        0 <= i < j < out.len() && !view_is_coalescible(#[trigger] out[i].payload) && !view_is_coalescible(
            #[trigger] out[j].payload,
        ) ==> out[i].sequence.0 < out[j].sequence.0
}

/// What holds of a service state `t` that has delivered `out` so far.
pub open spec fn stream_inv(t: ServiceView, out: Seq<InputEventView>) -> bool {
    &&& stream_ordered(out)
    &&& pending_wf(t.pending)
    &&& strictly_ordered(t.pending)
    &&& forall|i: int| 0 <= i < t.pending.len() ==> #[trigger] t.pending[i].sequence.0 < t.next_sequence
    &&& forall|j: int| 0 <= j < out.len() ==> #[trigger] out[j].sequence.0 < t.next_sequence
    &&& forall|i: int, j: int|
        0 <= i < t.pending.len() && 0 <= j < out.len() ==> #[trigger] t.pending[i].sequence.0 != #[trigger] out[j].sequence.0
    &&& forall|i: int, j: int|
        0 <= i < t.pending.len() && 0 <= j < out.len() && #[trigger] t.pending[i].device_id == #[trigger] out[j].device_id
            ==> t.pending[i].sequence.0 > out[j].sequence.0
}

/// A waiting sample is coalescible as a view too.
proof fn lemma_pending_views_coalescible(x: InputEvent)
    requires
        spec_coalesce_key(x.payload) is Some,
    ensures
        view_is_coalescible(x@.payload),
{
}

/// A sample left waiting after an offer was waiting before, or is numbered like the
/// offered event.
proof fn lemma_offer_origin(x: Seq<InputEvent>, e: InputEvent, i: int)
    requires
        0 <= i < spec_offer(x, e).0.len(),
        spec_offer(x, e).0[i].sequence.0 != e.sequence.0,
    ensures
        x.contains(spec_offer(x, e).0[i]),
{
    let d = e.device_id;
    let after = spec_offer(x, e).0;
    match spec_coalesce_key(e.payload) {
        Some(key) => {
            if exists|c: int| 0 <= c < x.len() && #[trigger] crate::coalesce::in_slot(x[c], d, e.source, key) {
                let c = choose|c: int| 0 <= c < x.len() && #[trigger] crate::coalesce::in_slot(x[c], d, e.source, key);
                let r = x.remove(c);
                let merged = crate::coalesce::spec_merge(x[c], e);
                let p = crate::coalesce::insert_pos(r, merged.sequence.0) as int;
                crate::coalesce::lemma_insert_pos(r, merged.sequence.0);
                assert(after == crate::coalesce::sorted_insert(r, merged));
                assert(i != p);
                let k = if i < p { i } else { i - 1 };
                assert(after[i] == r[k]);
                let m = if k < c { k } else { k + 1 };
                assert(r[k] == x[m]);
            } else {
                let p = crate::coalesce::insert_pos(x, e.sequence.0) as int;
                crate::coalesce::lemma_insert_pos(x, e.sequence.0);
                assert(after == crate::coalesce::sorted_insert(x, e));
                assert(i != p);
                let k = if i < p { i } else { i - 1 };
                assert(after[i] == x[k]);
            }
        },
        None => {
            assert(after.contains(after[i]));
            x.lemma_filter_contains_rev(|y: InputEvent| y.device_id != d, after[i]);
        },
    }
}

/// A step that offers `e`, numbered with the counter, to samples `x` taken from the
/// waiting ones keeps the stream invariant.
proof fn lemma_offer_step(
    t: ServiceView,
    out: Seq<InputEventView>,
    x: Seq<InputEvent>,
    e: InputEvent,
    u: ServiceView,
    more: Seq<InputEventView>,
)
    requires
        stream_inv(t, out),
        e.sequence.0 == t.next_sequence,
        pending_wf(x),
        strictly_ordered(x),
        forall|y: InputEvent| #[trigger] x.contains(y) ==> t.pending.contains(y),
        u.pending == spec_offer(x, e).0,
        more == event_views(spec_offer(x, e).1),
        u.next_sequence == t.next_sequence + 1,
    ensures
        stream_inv(u, out + more),
{
    let (a, r) = spec_offer(x, e);
    let d = e.device_id;
    let n = out.len();
    let all = out + more;
    let coal = spec_coalesce_key(e.payload) is Some;
    assert forall|i: int| 0 <= i < x.len() implies #[trigger] x[i].sequence.0 < e.sequence.0 by {
        assert(x.contains(x[i]));
        let k = choose|k: int| 0 <= k < t.pending.len() && t.pending[k] == x[i];
    }
    assert forall|i: int| 0 <= i < x.len() implies #[trigger] x[i].sequence.0 <= e.sequence.0 by {}
    lemma_offer_sequencing(x, e);
    lemma_offer_keeps_strict_order(x, e);
    // Where the samples left waiting come from.
    assert forall|i: int| 0 <= i < a.len() implies (#[trigger] a[i].sequence.0 == e.sequence.0 && coal) || (x.contains(
        a[i],
    ) && a[i].sequence.0 < e.sequence.0 && (!coal ==> a[i].device_id != d)) by {
        if a[i].sequence.0 != e.sequence.0 {
            lemma_offer_origin(x, e, i);
            let m = choose|m: int| 0 <= m < x.len() && x[m] == a[i];
            if !coal {
                x.lemma_filter_pred(|y: InputEvent| y.device_id != d, i);
            }
        } else if !coal {
            assert(a.contains(a[i]));
            x.lemma_filter_contains_rev(|y: InputEvent| y.device_id != d, a[i]);
            let m = choose|m: int| 0 <= m < x.len() && x[m] == a[i];
        }
    }
    let mine = of_device(x, d);
    if !coal {
        crate::coalesce::law_transition_events_flush_their_device_first(x, e);
        lemma_filter_keeps_strict_order(x, |y: InputEvent| y.device_id == d);
        assert forall|j: int| 0 <= j < mine.len() implies #[trigger] x.contains(mine[j]) && mine[j].device_id == d by {
            assert(mine.contains(mine[j]));
            x.lemma_filter_contains_rev(|y: InputEvent| y.device_id == d, mine[j]);
            x.lemma_filter_pred(|y: InputEvent| y.device_id == d, j);
        }
    }
    assert(more.len() == r.len());
    // What this step delivers: nothing, or the waiting samples of `e`'s device, then `e`.
    assert forall|j: int| 0 <= j < more.len() implies (#[trigger] more[j].sequence.0 == e.sequence.0 && !view_is_coalescible(
        more[j].payload,
    ) && more[j].device_id == d && j == more.len() - 1) || (x.contains(r[j]) && view_is_coalescible(more[j].payload)
        && more[j].device_id == d && more[j].sequence.0 < e.sequence.0 && more[j] == r[j]@) by {
        assert(more[j] == r[j]@);
        if j == more.len() - 1 {
            assert(r[j] == e);
        } else {
            assert(r[j] == mine[j]);
            assert(x.contains(mine[j]));
            let m = choose|m: int| 0 <= m < x.len() && x[m] == r[j];
            assert(spec_coalesce_key(x[m].payload) is Some);
            lemma_pending_views_coalescible(r[j]);
        }
    }
    // Within this step, deliveries are strictly increasing.
    assert forall|j1: int, j2: int| 0 <= j1 < j2 < more.len() implies #[trigger] more[j1].sequence.0
        < #[trigger] more[j2].sequence.0 by {
        assert(more[j1] == r[j1]@ && more[j2] == r[j2]@);
        if j2 < more.len() - 1 {
            assert(r[j1] == mine[j1] && r[j2] == mine[j2]);
        }
    }
    // Facts about a delivered event of this step against an earlier one.
    assert forall|i: int, j: int| 0 <= i < n && 0 <= j < more.len() implies #[trigger] out[i].sequence.0
        < #[trigger] more[j].sequence.0 || (more[j].sequence.0 != out[i].sequence.0 && (more[j].device_id
        == out[i].device_id ==> more[j].sequence.0 > out[i].sequence.0) && view_is_coalescible(more[j].payload)) by {
        if more[j].sequence.0 != e.sequence.0 {
            let y = r[j];
            assert(t.pending.contains(y));
            let k = choose|k: int| 0 <= k < t.pending.len() && t.pending[k] == y;
            assert(t.pending[k].sequence.0 != out[i].sequence.0);
        }
    }
    // The stream so far, extended.
    assert forall|i: int, j: int| 0 <= i < j < all.len() implies #[trigger] all[i].sequence.0 != #[trigger] all[j].sequence.0 by {
        if j < n {
            assert(all[i] == out[i] && all[j] == out[j]);
        } else if i >= n {
            assert(all[i] == more[i - n] && all[j] == more[j - n]);
        } else {
            assert(all[i] == out[i] && all[j] == more[j - n]);
        }
    }
    assert forall|i: int, j: int|
        0 <= i < j < all.len() && #[trigger] all[i].device_id == #[trigger] all[j].device_id implies all[i].sequence.0
        < all[j].sequence.0 by {
        if j < n {
            assert(all[i] == out[i] && all[j] == out[j]);
        } else if i >= n {
            assert(all[i] == more[i - n] && all[j] == more[j - n]);
        } else {
            assert(all[i] == out[i] && all[j] == more[j - n]);
        }
    }
    assert forall|i: int, j: int|
        0 <= i < j < all.len() && !view_is_coalescible(#[trigger] all[i].payload) && !view_is_coalescible(
            #[trigger] all[j].payload,
        ) implies all[i].sequence.0 < all[j].sequence.0 by {
        if j < n {
            assert(all[i] == out[i] && all[j] == out[j]);
        } else if i >= n {
            assert(all[i] == more[i - n] && all[j] == more[j - n]);
        } else {
            assert(all[i] == out[i] && all[j] == more[j - n]);
        }
    }
    assert forall|j: int| 0 <= j < all.len() implies #[trigger] all[j].sequence.0 < u.next_sequence by {
        if j < n {
            assert(all[j] == out[j]);
        } else {
            assert(all[j] == more[j - n]);
        }
    }
    assert forall|i: int| 0 <= i < u.pending.len() implies #[trigger] u.pending[i].sequence.0 < u.next_sequence by {}
    assert forall|i: int, j: int| 0 <= i < u.pending.len() && 0 <= j < all.len() implies #[trigger] u.pending[i].sequence.0
        != #[trigger] all[j].sequence.0 && (u.pending[i].device_id == all[j].device_id ==> u.pending[i].sequence.0
        > all[j].sequence.0) by {
        if j < n {
            assert(all[j] == out[j]);
            if a[i].sequence.0 != e.sequence.0 {
                assert(t.pending.contains(a[i]));
                let k = choose|k: int| 0 <= k < t.pending.len() && t.pending[k] == a[i];
                assert(t.pending[k].sequence.0 != out[j].sequence.0);
            }
        } else {
            assert(all[j] == more[j - n]);
            assert(!coal);
            if more[j - n].sequence.0 != e.sequence.0 {
                let y = r[j - n];
                assert(a[i].sequence.0 == e.sequence.0 && coal || x.contains(a[i]) && a[i].sequence.0 < e.sequence.0
                    && (!coal ==> a[i].device_id != d));
                assert(x.contains(a[i]) && a[i].device_id != d);
                assert(more[j - n].sequence.0 == e.sequence.0 || x.contains(r[j - n]) && more[j - n].device_id == d
                    && more[j - n] == r[j - n]@);
                assert(x.contains(y) && y.device_id == d);
                let m1 = choose|m: int| 0 <= m < x.len() && x[m] == a[i];
                let m2 = choose|m: int| 0 <= m < x.len() && x[m] == y;
                assert(m1 != m2);
                if m1 < m2 {
                    assert(x[m1].sequence.0 < x[m2].sequence.0);
                } else {
                    assert(x[m2].sequence.0 < x[m1].sequence.0);
                }
            }
        }
    }
}

/// A step that delivers a never-coalesced event `ev`, numbered with the counter, after
/// the waiting samples of its device keeps the stream invariant.
proof fn lemma_final_step(
    t: ServiceView,
    out: Seq<InputEventView>,
    ev: InputEventView,
    u: ServiceView,
    more: Seq<InputEventView>,
)
    requires
        stream_inv(t, out),
        ev.sequence.0 == t.next_sequence,
        !view_is_coalescible(ev.payload),
        u.pending == not_of_device(t.pending, ev.device_id),
        more == event_views(of_device(t.pending, ev.device_id)).push(ev),
        u.next_sequence == t.next_sequence + 1,
    ensures
        stream_inv(u, out + more),
{
    let d = ev.device_id;
    let x = t.pending;
    let a = u.pending;
    let mine = of_device(x, d);
    let n = out.len();
    let all = out + more;
    lemma_filter_wf(x, |y: InputEvent| y.device_id != d);
    lemma_filter_keeps_strict_order(x, |y: InputEvent| y.device_id != d);
    lemma_filter_keeps_strict_order(x, |y: InputEvent| y.device_id == d);
    assert forall|j: int| 0 <= j < mine.len() implies #[trigger] x.contains(mine[j]) && mine[j].device_id == d by {
        assert(mine.contains(mine[j]));
        x.lemma_filter_contains_rev(|y: InputEvent| y.device_id == d, mine[j]);
        x.lemma_filter_pred(|y: InputEvent| y.device_id == d, j);
    }
    assert forall|i: int| 0 <= i < a.len() implies #[trigger] x.contains(a[i]) && a[i].device_id != d by {
        assert(a.contains(a[i]));
        x.lemma_filter_contains_rev(|y: InputEvent| y.device_id != d, a[i]);
        x.lemma_filter_pred(|y: InputEvent| y.device_id != d, i);
    }
    assert forall|j: int| 0 <= j < more.len() implies (j == more.len() - 1 && #[trigger] more[j] == ev) || (x.contains(mine[j])
        && view_is_coalescible(more[j].payload) && more[j].device_id == d && more[j].sequence.0 < ev.sequence.0
        && more[j] == mine[j]@) by {
        if j < more.len() - 1 {
            assert(more[j] == mine[j]@);
            assert(x.contains(mine[j]));
            let m = choose|m: int| 0 <= m < x.len() && x[m] == mine[j];
            assert(spec_coalesce_key(x[m].payload) is Some);
            lemma_pending_views_coalescible(mine[j]);
        }
    }
    assert forall|j1: int, j2: int| 0 <= j1 < j2 < more.len() implies #[trigger] more[j1].sequence.0
        < #[trigger] more[j2].sequence.0 by {
        if j2 < more.len() - 1 {
            assert(more[j1] == mine[j1]@ && more[j2] == mine[j2]@);
        }
    }
    assert forall|i: int, j: int| 0 <= i < n && 0 <= j < more.len() implies #[trigger] out[i].sequence.0
        < #[trigger] more[j].sequence.0 || (more[j].sequence.0 != out[i].sequence.0 && (more[j].device_id
        == out[i].device_id ==> more[j].sequence.0 > out[i].sequence.0) && view_is_coalescible(more[j].payload)) by {
        if j < more.len() - 1 {
            assert(x.contains(mine[j]));
            let k = choose|k: int| 0 <= k < x.len() && x[k] == mine[j];
            assert(x[k].sequence.0 != out[i].sequence.0);
        }
    }
    assert forall|i: int, j: int| 0 <= i < j < all.len() implies #[trigger] all[i].sequence.0 != #[trigger] all[j].sequence.0 by {
        if j < n {
            assert(all[i] == out[i] && all[j] == out[j]);
        } else if i >= n {
            assert(all[i] == more[i - n] && all[j] == more[j - n]);
        } else {
            assert(all[i] == out[i] && all[j] == more[j - n]);
        }
    }
    assert forall|i: int, j: int|
        0 <= i < j < all.len() && #[trigger] all[i].device_id == #[trigger] all[j].device_id implies all[i].sequence.0
        < all[j].sequence.0 by {
        if j < n {
            assert(all[i] == out[i] && all[j] == out[j]);
        } else if i >= n {
            assert(all[i] == more[i - n] && all[j] == more[j - n]);
        } else {
            assert(all[i] == out[i] && all[j] == more[j - n]);
        }
    }
    assert forall|i: int, j: int|
        0 <= i < j < all.len() && !view_is_coalescible(#[trigger] all[i].payload) && !view_is_coalescible(
            #[trigger] all[j].payload,
        ) implies all[i].sequence.0 < all[j].sequence.0 by {
        if j < n {
            assert(all[i] == out[i] && all[j] == out[j]);
        } else if i >= n {
            assert(all[i] == more[i - n] && all[j] == more[j - n]);
        } else {
            assert(all[i] == out[i] && all[j] == more[j - n]);
        }
    }
    assert forall|j: int| 0 <= j < all.len() implies #[trigger] all[j].sequence.0 < u.next_sequence by {
        if j < n {
            assert(all[j] == out[j]);
        } else {
            assert(all[j] == more[j - n]);
        }
    }
    assert forall|i: int| 0 <= i < a.len() implies #[trigger] a[i].sequence.0 < u.next_sequence by {
        assert(x.contains(a[i]));
        let k = choose|k: int| 0 <= k < x.len() && x[k] == a[i];
    }
    assert forall|i: int, j: int| 0 <= i < a.len() && 0 <= j < all.len() implies #[trigger] a[i].sequence.0
        != #[trigger] all[j].sequence.0 && (a[i].device_id == all[j].device_id ==> a[i].sequence.0
        > all[j].sequence.0) by {
        assert(x.contains(a[i]));
        let m1 = choose|m: int| 0 <= m < x.len() && x[m] == a[i];
        if j < n {
            assert(all[j] == out[j]);
            assert(x[m1].sequence.0 != out[j].sequence.0);
        } else {
            assert(all[j] == more[j - n]);
            if j - n < more.len() - 1 {
                let y = mine[j - n];
                assert(x.contains(y));
                let m2 = choose|m: int| 0 <= m < x.len() && x[m] == y;
                assert(m1 != m2);
                if m1 < m2 {
                    assert(x[m1].sequence.0 < x[m2].sequence.0);
                } else {
                    assert(x[m2].sequence.0 < x[m1].sequence.0);
                }
            }
        }
    }
}

/// A frame flush keeps the stream invariant.
proof fn lemma_flush_step<L: KeyboardLayout>(layout: L, t: ServiceView, out: Seq<InputEventView>)
    requires
        stream_inv(t, out),
    ensures
        ({
            let (u, more) = service_step(layout, t, None);
            &&& stream_inv(u, out + more)
            &&& u.next_sequence == t.next_sequence
        }),
{
    let (u, more) = service_step(layout, t, None);
    let x = t.pending;
    let n = out.len();
    let all = out + more;
    assert forall|j: int| 0 <= j < more.len() implies #[trigger] more[j] == x[j]@ && view_is_coalescible(more[j].payload) by {
        assert(spec_coalesce_key(x[j].payload) is Some);
        lemma_pending_views_coalescible(x[j]);
    }
    assert forall|i: int, j: int| 0 <= i < j < all.len() implies #[trigger] all[i].sequence.0 != #[trigger] all[j].sequence.0 by {
        if j < n {
            assert(all[i] == out[i] && all[j] == out[j]);
        } else if i >= n {
            assert(all[i] == more[i - n] && all[j] == more[j - n]);
            assert(x[i - n].sequence.0 < x[j - n].sequence.0);
        } else {
            assert(all[i] == out[i] && all[j] == more[j - n]);
            assert(x[j - n].sequence.0 != out[i].sequence.0);
        }
    }
    assert forall|i: int, j: int|
        0 <= i < j < all.len() && #[trigger] all[i].device_id == #[trigger] all[j].device_id implies all[i].sequence.0
        < all[j].sequence.0 by {
        if j < n {
            assert(all[i] == out[i] && all[j] == out[j]);
        } else if i >= n {
            assert(all[i] == more[i - n] && all[j] == more[j - n]);
            assert(x[i - n].sequence.0 < x[j - n].sequence.0);
        } else {
            assert(all[i] == out[i] && all[j] == more[j - n]);
            assert(x[j - n].device_id == out[i].device_id ==> x[j - n].sequence.0 > out[i].sequence.0);
        }
    }
    assert forall|i: int, j: int|
        0 <= i < j < all.len() && !view_is_coalescible(#[trigger] all[i].payload) && !view_is_coalescible(
            #[trigger] all[j].payload,
        ) implies all[i].sequence.0 < all[j].sequence.0 by {
        if j < n {
            assert(all[i] == out[i] && all[j] == out[j]);
        } else {
            assert(all[j] == more[j - n]);
        }
    }
    assert forall|j: int| 0 <= j < all.len() implies #[trigger] all[j].sequence.0 < u.next_sequence by {
        if j < n {
            assert(all[j] == out[j]);
        } else {
            assert(all[j] == more[j - n]);
        }
    }
    assert(strictly_ordered(u.pending));
    assert(pending_wf(u.pending));
}

/// One step keeps the stream invariant, and moves the counter on by at most one.
proof fn lemma_step<L: KeyboardLayout>(
    layout: L,
    t: ServiceView,
    out: Seq<InputEventView>,
    step: Option<(BackendEvent, InputSource, Timestamp)>,
)
    requires
        stream_inv(t, out),
        t.next_sequence < u64::MAX,
    ensures
        ({
            let (u, more) = service_step(layout, t, step);
            &&& stream_inv(u, out + more)
            &&& t.next_sequence <= u.next_sequence <= t.next_sequence + 1
        }),
{
    match step {
        None => {
            lemma_flush_step(layout, t, out);
        },
        Some((event, source, now)) => {
            let (u, more) = service_step(layout, t, step);
            match event {
                BackendEvent::DeviceAdded(device) => {
                    if t.devices.contains_key(device.id) {
                        assert(out + more =~= out);
                    } else {
                        let ev = InputEventView {
                            timestamp: now,
                            sequence: SequenceNumber(t.next_sequence),
                            device_id: device.id,
                            source,
                            modifiers: Modifiers::spec_none(),
                            payload: InputEventPayloadView::DeviceAdded(device@),
                        };
                        lemma_final_step(t, out, ev, u, more);
                    }
                },
                BackendEvent::DeviceRemoved(id) => {
                    let x = not_of_device(t.pending, id);
                    lemma_filter_wf(t.pending, |y: InputEvent| y.device_id != id);
                    lemma_filter_keeps_strict_order(t.pending, |y: InputEvent| y.device_id != id);
                    assert forall|y: InputEvent| #[trigger] x.contains(y) implies t.pending.contains(y) by {
                        t.pending.lemma_filter_contains_rev(|z: InputEvent| z.device_id != id, y);
                    }
                    let e = InputEvent {
                        timestamp: now,
                        sequence: SequenceNumber(t.next_sequence),
                        device_id: id,
                        source,
                        modifiers: Modifiers::spec_none(),
                        payload: InputEventPayload::DeviceRemoved(id),
                    };
                    lemma_offer_step(t, out, x, e, u, more);
                },
                BackendEvent::Key { device_id, physical_key, pressed } => {
                    let held = held_keys(t.keyboard, device_id);
                    let now_held = if pressed {
                        held.insert(physical_key)
                    } else {
                        held.remove(physical_key)
                    };
                    let modifiers = modifiers_of(now_held);
                    let logical = layout.spec_map(physical_key, modifiers);
                    let ev = InputEventView {
                        timestamp: now,
                        sequence: SequenceNumber(t.next_sequence),
                        device_id,
                        source,
                        modifiers,
                        payload: InputEventPayloadView::Keyboard(
                            KeyboardEventView {
                                physical_key,
                                logical_key: logical,
                                text: if pressed {
                                    layout.spec_text_for(logical, modifiers)
                                } else {
                                    None
                                },
                                action: key_action(pressed, held.contains(physical_key)),
                            },
                        ),
                    };
                    lemma_final_step(t, out, ev, u, more);
                },
                BackendEvent::MotionRelative { device_id, dx, dy } => {
                    let e = InputEvent {
                        timestamp: now,
                        sequence: SequenceNumber(t.next_sequence),
                        device_id,
                        source,
                        modifiers: aggregate_modifiers_of(t.keyboard),
                        payload: InputEventPayload::Pointer(PointerEvent::MotionRelative { dx, dy }),
                    };
                    lemma_offer_step(t, out, t.pending, e, u, more);
                },
                BackendEvent::MotionAbsolute { device_id, position } => {
                    let e = InputEvent {
                        timestamp: now,
                        sequence: SequenceNumber(t.next_sequence),
                        device_id,
                        source,
                        modifiers: aggregate_modifiers_of(t.keyboard),
                        payload: InputEventPayload::Pointer(PointerEvent::MotionAbsolute { position }),
                    };
                    lemma_offer_step(t, out, t.pending, e, u, more);
                },
                BackendEvent::PointerButton { device_id, button, pressed } => {
                    let e = InputEvent {
                        timestamp: now,
                        sequence: SequenceNumber(t.next_sequence),
                        device_id,
                        source,
                        modifiers: aggregate_modifiers_of(t.keyboard),
                        payload: InputEventPayload::Pointer(PointerEvent::Button { button, pressed }),
                    };
                    lemma_offer_step(t, out, t.pending, e, u, more);
                },
                BackendEvent::Scroll { device_id, axis, delta, high_resolution } => {
                    let e = InputEvent {
                        timestamp: now,
                        sequence: SequenceNumber(t.next_sequence),
                        device_id,
                        source,
                        modifiers: aggregate_modifiers_of(t.keyboard),
                        payload: InputEventPayload::Pointer(PointerEvent::Scroll { axis, delta, high_resolution }),
                    };
                    lemma_offer_step(t, out, t.pending, e, u, more);
                },
                BackendEvent::Touch { device_id, event: te } => {
                    let e = InputEvent {
                        timestamp: now,
                        sequence: SequenceNumber(t.next_sequence),
                        device_id,
                        source,
                        modifiers: aggregate_modifiers_of(t.keyboard),
                        payload: InputEventPayload::Touch(te),
                    };
                    lemma_offer_step(t, out, t.pending, e, u, more);
                },
                BackendEvent::Tablet { device_id, event: te } => {
                    let e = InputEvent {
                        timestamp: now,
                        sequence: SequenceNumber(t.next_sequence),
                        device_id,
                        source,
                        modifiers: aggregate_modifiers_of(t.keyboard),
                        payload: InputEventPayload::Tablet(te),
                    };
                    lemma_offer_step(t, out, t.pending, e, u, more);
                },
                BackendEvent::Gamepad { device_id, event: ge } => {
                    let e = InputEvent {
                        timestamp: now,
                        sequence: SequenceNumber(t.next_sequence),
                        device_id,
                        source,
                        modifiers: Modifiers::spec_none(),
                        payload: InputEventPayload::Gamepad(ge),
                    };
                    lemma_offer_step(t, out, t.pending, e, u, more);
                },
            }
        },
    }
}

/// Every run keeps the stream invariant, as long as the counter does not wrap.
proof fn lemma_run<L: KeyboardLayout>(
    layout: L,
    s: ServiceView,
    steps: Seq<Option<(BackendEvent, InputSource, Timestamp)>>,
)
    requires
        stream_inv(s, Seq::empty()),
        s.next_sequence + steps.len() <= u64::MAX,
    ensures
        ({
            let (t, out) = service_run(layout, s, steps);
            &&& stream_inv(t, out)
            &&& t.next_sequence <= s.next_sequence + steps.len()
        }),
    decreases steps.len(),
{
    if steps.len() > 0 {
        lemma_run(layout, s, steps.drop_last());
        let (t, out) = service_run(layout, s, steps.drop_last());
        lemma_step(layout, t, out, steps.last());
    }
}

/// Delivery order over a whole run: starting from a state whose waiting samples are
/// in strictly increasing order and numbered below the counter (a new service has
/// none), and for any reports and frame flushes one after the other, everything
/// delivered has distinct sequence numbers, each device's events arrive in increasing
/// sequence order, events that are never coalesced arrive in increasing sequence order
/// whatever their devices, and the samples still waiting are in strictly increasing
/// order, which is the order a frame flush delivers them in. (The counter wraps after
/// `u64::MAX` events; the law is stated before that.)
pub proof fn law_delivered_stream_is_ordered<L: KeyboardLayout>(
    layout: L,
    s: ServiceView,
    steps: Seq<Option<(BackendEvent, InputSource, Timestamp)>>,
)
    requires
        pending_wf(s.pending),
        strictly_ordered(s.pending),
        forall|i: int| 0 <= i < s.pending.len() ==> #[trigger] s.pending[i].sequence.0 < s.next_sequence,
        s.next_sequence + steps.len() <= u64::MAX,
    ensures
        stream_ordered(service_run(layout, s, steps).1),
        strictly_ordered(service_run(layout, s, steps).0.pending),
{
    lemma_run(layout, s, steps);
}

} // verus!
