use crate::error::{Error, Result};
use crate::id_map::{ExactKey, IdMap};
use vstd::prelude::*;

verus! {

/// What class of input a capture applies to. Captures are tracked per kind, not per
/// device.
#[derive(Debug, Clone, Copy, PartialEq, Eq, Hash, Structural)]
pub enum CaptureKind {
    Pointer,
    Keyboard,
    Touch,
}

impl ExactKey for CaptureKind {
    fn same_key(&self, other: &Self) -> (b: bool) {
        match (self, other) {
            (CaptureKind::Pointer, CaptureKind::Pointer) => true,
            (CaptureKind::Keyboard, CaptureKind::Keyboard) => true,
            (CaptureKind::Touch, CaptureKind::Touch) => true,
            _ => false,
        }
    }
}

/// A plain grab (position still delivered) versus a locked pointer (relative motion
/// only, position frozen).
#[derive(Debug, Clone, Copy, PartialEq, Eq, Hash, Structural)]
pub enum PointerGrabMode {
    Confined,
    Locked,
}

#[derive(Debug, Clone, Copy, PartialEq, Eq, Hash, Structural)]
pub struct CaptureId(pub u64);

struct ActiveCapture {
    id: CaptureId,
    owner: String,
    reason: String,
    pointer_mode: Option<PointerGrabMode>,
}

/// The abstract value of one active capture.
pub struct ActiveCaptureView {
    pub id: CaptureId,
    pub owner: Seq<char>,
    pub reason: Seq<char>,
    pub pointer_mode: Option<PointerGrabMode>,
}

/// The abstract state of a [`CaptureRegistry`]: the id the next capture gets and the
/// active capture of each captured kind.
pub struct CaptureRegistryView {
    pub next_id: u64,
    pub active: Map<CaptureKind, ActiveCaptureView>,
}

/// The name of a capture kind, as it appears in messages.
pub open spec fn kind_name(kind: CaptureKind) -> Seq<char> {
    match kind {
        CaptureKind::Pointer => "Pointer"@,
        CaptureKind::Keyboard => "Keyboard"@,
        CaptureKind::Touch => "Touch"@,
    }
}

/// The message of a refused capture of `kind`, which `owner` already holds.
pub open spec fn grab_denied_text(kind: CaptureKind, owner: Seq<char>) -> Seq<char> {
    kind_name(kind) + " already captured by '"@ + owner + "'"@
}

/// The id after `id`, wrapping at `u64::MAX` as the counter does.
pub open spec fn next_capture_id(id: u64) -> u64 {
    if id == u64::MAX {
        0
    } else {
        (id + 1) as u64
    }
}

/// The registry after a request to capture `kind`: unchanged if the kind is already
/// captured, otherwise holding a new capture under the next id.
pub open spec fn spec_acquire(
    s: CaptureRegistryView,
    kind: CaptureKind,
    owner: Seq<char>,
    reason: Seq<char>,
    pointer_mode: Option<PointerGrabMode>,
) -> CaptureRegistryView {
    if s.active.contains_key(kind) {
        s
    } else {
        CaptureRegistryView {
            next_id: next_capture_id(s.next_id),
            active: s.active.insert(
                kind,
                ActiveCaptureView { id: CaptureId(s.next_id), owner, reason, pointer_mode },
            ),
        }
    }
}

/// The registry after releasing the capture `id` of `kind`: the capture ends only if
/// it is still the active one of that kind.
pub open spec fn spec_release(s: CaptureRegistryView, kind: CaptureKind, id: CaptureId) -> CaptureRegistryView {
    if s.active.contains_key(kind) && s.active[kind].id == id {
        CaptureRegistryView { next_id: s.next_id, active: s.active.remove(kind) }
    } else {
        s
    }
}

/// The interface for requesting exclusive input. It does not decide who should get a
/// capture; it enforces that a capture is explicit, single-owner and revocable.
pub struct CaptureRegistry {
    next_id: u64,
    active: IdMap<CaptureKind, ActiveCapture>,
}

impl View for CaptureRegistry {
    type V = CaptureRegistryView;

    closed spec fn view(&self) -> CaptureRegistryView {
        CaptureRegistryView {
            next_id: self.next_id,
            active: self.active@.map_values(
                |c: ActiveCapture|
                    ActiveCaptureView { id: c.id, owner: c.owner@, reason: c.reason@, pointer_mode: c.pointer_mode },
            ),
        }
    }
}

/// The token of one granted capture. Handing it back through
/// [`CaptureGuard::release`] is what ends the capture.
#[must_use]
pub struct CaptureGuard {
    kind: CaptureKind,
    id: CaptureId,
}

impl CaptureGuard {
    pub closed spec fn spec_kind(&self) -> CaptureKind {
        self.kind
    }

    pub closed spec fn spec_id(&self) -> CaptureId {
        self.id
    }

    pub fn kind(&self) -> (k: CaptureKind)
        ensures
            k == self.spec_kind(),
    {
        self.kind
    }

    pub fn id(&self) -> (i: CaptureId)
        ensures
            i == self.spec_id(),
    {
        self.id
    }

    /// Ends the capture this guard stands for. A capture of the same kind that was
    /// granted later, under another id, is left alone.
    pub fn release(self, registry: &mut CaptureRegistry)
        requires
            old(registry).wf(),
        ensures
            final(registry).wf(),
            final(registry)@ == spec_release(old(registry)@, self.spec_kind(), self.spec_id()),
    {
        registry.release(self.kind, self.id);
    }
}

impl CaptureRegistry {
    pub closed spec fn wf(&self) -> bool {
        self.active.wf()
    }

    pub fn new() -> (r: CaptureRegistry)
        ensures
            r.wf(),
            r@.next_id == 0,
            r@.active == Map::<CaptureKind, ActiveCaptureView>::empty(),
    {
        let r = CaptureRegistry { next_id: 0, active: IdMap::new() };
        proof {
            assert(r@.active =~= Map::<CaptureKind, ActiveCaptureView>::empty());
        }
        r
    }

    /// Grants `owner` exclusive use of `kind`, unless that kind is already captured.
    pub fn acquire(
        &mut self,
        kind: CaptureKind,
        owner: &str,
        reason: &str,
        pointer_mode: Option<PointerGrabMode>,
    ) -> (r: Result<CaptureGuard>)
        requires
            old(self).wf(),
        ensures
            final(self).wf(),
            final(self)@ == spec_acquire(old(self)@, kind, owner@, reason@, pointer_mode),
            old(self)@.active.contains_key(kind) ==> (r matches Err(Error::GrabDenied(text)) && text@
                == grab_denied_text(kind, old(self)@.active[kind].owner)),
            !old(self)@.active.contains_key(kind) ==> (r matches Ok(g) && g.spec_kind() == kind && g.spec_id()
                == CaptureId(old(self)@.next_id)),
    {
        match self.active.get(kind) {
            Some(existing) => {
                let mut text = String::from_str(kind_label(kind));
                text.append(" already captured by '");
                text.append(existing.owner.as_str());
                text.append("'");
                return Err(Error::GrabDenied(text));
            },
            None => {},
        }
        let id = CaptureId(self.next_id);
        self.next_id = self.next_id.wrapping_add(1);
        let capture = ActiveCapture {
            id,
            owner: String::from_str(owner),
            reason: String::from_str(reason),
            pointer_mode,
        };
        let ghost cv = ActiveCaptureView { id, owner: owner@, reason: reason@, pointer_mode };
        self.active.insert(kind, capture);
        proof {
            assert(self@.active =~= old(self)@.active.insert(kind, cv));
            assert(self@ == spec_acquire(old(self)@, kind, owner@, reason@, pointer_mode));
        }
        Ok(CaptureGuard { kind, id })
    }

    pub fn is_captured(&self, kind: CaptureKind) -> (b: bool)
        requires
            self.wf(),
        ensures
            b == self@.active.contains_key(kind),
    {
        self.active.contains_key(kind)
    }

    /// The grab mode of the active pointer capture, if there is one and it has a mode.
    pub fn pointer_grab_mode(&self) -> (m: Option<PointerGrabMode>)
        requires
            self.wf(),
        ensures
            m == (if self@.active.contains_key(CaptureKind::Pointer) {
                self@.active[CaptureKind::Pointer].pointer_mode
            } else {
                None
            }),
    {
        match self.active.get(CaptureKind::Pointer) {
            Some(c) => c.pointer_mode,
            None => None,
        }
    }

    /// The owner of the active capture of `kind`, if any.
    pub fn owner_of(&self, kind: CaptureKind) -> (o: Option<String>)
        requires
            self.wf(),
        ensures
            o is None <==> !self@.active.contains_key(kind),
            o matches Some(s) ==> s@ == self@.active[kind].owner,
    {
        match self.active.get(kind) {
            Some(c) => Some(c.owner.clone()),
            None => None,
        }
    }

    /// Why the active capture of `kind` was granted, if there is one; kept for
    /// diagnostics.
    pub fn reason_of(&self, kind: CaptureKind) -> (o: Option<String>)
        requires
            self.wf(),
        ensures
            o is None <==> !self@.active.contains_key(kind),
            o matches Some(s) ==> s@ == self@.active[kind].reason,
    {
        match self.active.get(kind) {
            Some(c) => Some(c.reason.clone()),
            None => None,
        }
    }

    /// Ends the capture of `kind` if it is the one with id `id`.
    fn release(&mut self, kind: CaptureKind, id: CaptureId)
        requires
            old(self).wf(),
        ensures
            final(self).wf(),
            final(self)@ == spec_release(old(self)@, kind, id),
    {
        let matches_id = match self.active.get(kind) {
            Some(c) => c.id.0 == id.0,
            None => false,
        };
        if matches_id {
            let _ = self.active.take(kind);
            proof {
                assert(self@.active =~= old(self)@.active.remove(kind));
                assert(self@ == spec_release(old(self)@, kind, id));
            }
        }
    }
}

/// A second request for a kind that was just captured is refused and leaves the first
/// capture, with its owner, in place.
pub proof fn law_capture_is_exclusive(
    s: CaptureRegistryView,
    kind: CaptureKind,
    owner: Seq<char>,
    reason: Seq<char>,
    mode: Option<PointerGrabMode>,
    other_owner: Seq<char>,
    other_reason: Seq<char>,
    other_mode: Option<PointerGrabMode>,
)
    requires
        !s.active.contains_key(kind),
    ensures
        ({
            let granted = spec_acquire(s, kind, owner, reason, mode);
            &&& granted.active.contains_key(kind)
            &&& granted.active[kind].owner == owner
            &&& spec_acquire(granted, kind, other_owner, other_reason, other_mode) == granted
        }),
{
}

/// Releasing the capture just granted ends it: the active captures are back to what
/// they were before the request, so the kind can be captured again.
pub proof fn law_release_undoes_acquire(
    s: CaptureRegistryView,
    kind: CaptureKind,
    owner: Seq<char>,
    reason: Seq<char>,
    mode: Option<PointerGrabMode>,
)
    requires
        !s.active.contains_key(kind),
    ensures
        spec_release(spec_acquire(s, kind, owner, reason, mode), kind, CaptureId(s.next_id)).active == s.active,
        !spec_release(spec_acquire(s, kind, owner, reason, mode), kind, CaptureId(s.next_id)).active.contains_key(kind),
{
    let granted = spec_acquire(s, kind, owner, reason, mode);
    assert(granted.active.remove(kind) =~= s.active);
}

/// A guard that was already released cannot end a later capture of the same kind:
/// the later capture has a different id.
pub proof fn law_stale_release_keeps_new_capture(
    s: CaptureRegistryView,
    kind: CaptureKind,
    owner: Seq<char>,
    reason: Seq<char>,
    mode: Option<PointerGrabMode>,
    owner2: Seq<char>,
    reason2: Seq<char>,
    mode2: Option<PointerGrabMode>,
)
    requires
        !s.active.contains_key(kind),
    ensures
        ({
            let first = spec_acquire(s, kind, owner, reason, mode);
            let released = spec_release(first, kind, CaptureId(s.next_id));
            let second = spec_acquire(released, kind, owner2, reason2, mode2);
            &&& second.active.contains_key(kind)
            &&& spec_release(second, kind, CaptureId(s.next_id)) == second
        }),
{
    let first = spec_acquire(s, kind, owner, reason, mode);
    let released = spec_release(first, kind, CaptureId(s.next_id));
    assert(!released.active.contains_key(kind));
}

/// The name of `kind` as static text.
fn kind_label(kind: CaptureKind) -> (s: &'static str)
    ensures
        s@ == kind_name(kind),
{
    match kind {
        CaptureKind::Pointer => "Pointer",
        CaptureKind::Keyboard => "Keyboard",
        CaptureKind::Touch => "Touch",
    }
}

} // verus!
