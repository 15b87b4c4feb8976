use crate::backend::BackendEvent;
use crate::capture::{
    spec_acquire, spec_release, CaptureGuard, CaptureKind, CaptureRegistry, CaptureRegistryView, PointerGrabMode,
};
use crate::coalesce::{
    device_numbered_above, lemma_filter_wf, lemma_offer_device_order, lemma_offer_sequencing, not_of_device, of_device,
    pending_wf, spec_coalesce_key, spec_offer, Coalescer,
};
use crate::config::InputConfig;
use crate::device::{InputDevice, InputDeviceView};
use crate::error::{Error, Result};
use crate::event::{
    event_views, spec_is_coalescible, InputEvent, InputEventPayload, InputEventPayloadView, InputEventView,
    KeyboardEventView,
};
use crate::ids::{InputDeviceId, SequenceCounter, SequenceNumber, Timestamp};
use crate::keyboard::{
    aggregate_modifiers_of, held_keys, modifiers_of, KeyAction, KeyboardEvent, KeyboardLayout, KeyboardStateTable, LogicalKey,
    Modifiers, PhysicalKey, UsQwertyLayout,
};
use crate::pointer::{pointer_state_or_initial, saturating_sum, NormalizedPosition, PointerEvent, PointerStateTable, PointerStateView};
use crate::registry::DeviceRegistry;
use crate::source::{InputSource, SyntheticInputGrant, SyntheticOrigin};
use crate::touch::{apply_touch, contacts_or_none, ContactId, TouchContact, TouchStateTable};
use vstd::prelude::*;

verus! {

/// The abstract state of an [`InputService`].
pub struct ServiceView {
    /// The registered devices.
    pub devices: Map<InputDeviceId, InputDeviceView>,
    /// The sequence number the next event gets.
    pub next_sequence: u64,
    /// Held keys per keyboard device.
    pub keyboard: Map<InputDeviceId, Set<PhysicalKey>>,
    /// Position and held buttons per pointer device.
    pub pointer: Map<InputDeviceId, PointerStateView>,
    /// Live contacts per touch device.
    pub touch: Map<InputDeviceId, Map<ContactId, TouchContact>>,
    /// Coalesced samples not delivered yet, in delivery order.
    pub pending: Seq<InputEvent>,
    /// Active captures.
    pub captures: CaptureRegistryView,
}

/// The counter value after `n`, wrapping at `u64::MAX`.
pub open spec fn next_sequence_after(n: u64) -> u64 {
    if n == u64::MAX {
        0
    } else {
        (n + 1) as u64
    }
}

/// Stamps an event with `now` and the next sequence number and offers it to the
/// coalescer: the state after it and the events delivered.
pub open spec fn spec_emit(
    s: ServiceView,
    device: InputDeviceId,
    source: InputSource,
    modifiers: Modifiers,
    payload: InputEventPayload,
    now: Timestamp,
) -> (ServiceView, Seq<InputEventView>) {
    let e = InputEvent {
        timestamp: now,
        sequence: SequenceNumber(s.next_sequence),
        device_id: device,
        source,
        modifiers,
        payload,
    };
    let (pending, out) = spec_offer(s.pending, e);
    (ServiceView { next_sequence: next_sequence_after(s.next_sequence), pending, ..s }, event_views(out))
}

/// Like [`spec_emit`] for an event that is never coalesced, given by its view: the
/// pending samples of its device are delivered first, then the event.
pub open spec fn spec_emit_final(
    s: ServiceView,
    device: InputDeviceId,
    source: InputSource,
    modifiers: Modifiers,
    payload: InputEventPayloadView,
    now: Timestamp,
) -> (ServiceView, Seq<InputEventView>) {
    let e = InputEventView {
        timestamp: now,
        sequence: SequenceNumber(s.next_sequence),
        device_id: device,
        source,
        modifiers,
        payload,
    };
    (
        ServiceView {
            next_sequence: next_sequence_after(s.next_sequence),
            pending: not_of_device(s.pending, device),
            ..s
        },
        event_views(of_device(s.pending, device)).push(e),
    )
}

/// The action of a key event: a release is `Up`, a press of a key already held is
/// `Repeat`, any other press is `Down`.
pub open spec fn key_action(pressed: bool, was_held: bool) -> KeyAction {
    if !pressed {
        KeyAction::Up
    } else if was_held {
        KeyAction::Repeat
    } else {
        KeyAction::Down
    }
}

/// Normalization of one backend event reported with `source` at time `now`: the
/// service state after it and the events delivered, in order.
///
/// - A device addition registers the device and announces it; a second addition of a
///   registered id changes nothing and announces nothing.
/// - A removal unregisters the device, forgets its keyboard, pointer and touch state,
///   drops its coalesced samples and announces the removal.
/// - A key event updates the device's held keys and is mapped through the layout with
///   the device's modifiers after the change; text is only produced on a press.
/// - Pointer and touch events update that device's state and carry the modifiers held
///   across all keyboards; scroll and tablet events carry them too; gamepad events
///   carry none.
/// - Every announced event gets the next sequence number and goes through the
///   coalescer.
pub open spec fn spec_ingest<L: KeyboardLayout>(
    layout: L,
    s: ServiceView,
    event: BackendEvent,
    source: InputSource,
    now: Timestamp,
) -> (ServiceView, Seq<InputEventView>) {
    match event {
        BackendEvent::DeviceAdded(device) => if s.devices.contains_key(device.id) {
            (s, Seq::empty())
        } else {
            spec_emit_final(
                ServiceView { devices: s.devices.insert(device.id, device@), ..s },
                device.id,
                source,
                Modifiers::spec_none(),
                InputEventPayloadView::DeviceAdded(device@),
                now,
            )
        },
        BackendEvent::DeviceRemoved(id) => spec_emit(
            ServiceView {
                devices: s.devices.remove(id),
                keyboard: s.keyboard.remove(id),
                pointer: s.pointer.remove(id),
                touch: s.touch.remove(id),
                pending: not_of_device(s.pending, id),
                ..s
            },
            id,
            source,
            Modifiers::spec_none(),
            InputEventPayload::DeviceRemoved(id),
            now,
        ),
        BackendEvent::Key { device_id, physical_key, pressed } => {
            let held = held_keys(s.keyboard, device_id);
            let now_held = if pressed {
                held.insert(physical_key)
            } else {
                held.remove(physical_key)
            };
            let modifiers = modifiers_of(now_held);
            let logical = layout.spec_map(physical_key, modifiers);
            spec_emit_final(
                ServiceView { keyboard: s.keyboard.insert(device_id, now_held), ..s },
                device_id,
                source,
                modifiers,
                InputEventPayloadView::Keyboard(
                    KeyboardEventView {
                        physical_key,
                        logical_key: logical,
                        text: if pressed {
                            layout.spec_text_for(logical, modifiers)
                        } else {
                            None
                        },
                        action: key_action(pressed, held.contains(physical_key)),
                    },
                ),
                now,
            )
        },
        BackendEvent::MotionRelative { device_id, dx, dy } => {
            let p = pointer_state_or_initial(s.pointer, device_id);
            spec_emit(
                ServiceView {
                    pointer: s.pointer.insert(
                        device_id,
                        PointerStateView {
                            position: NormalizedPosition {
                                x: saturating_sum(p.position.x, dx),
                                y: saturating_sum(p.position.y, dy),
                            },
                            buttons: p.buttons,
                        },
                    ),
                    ..s
                },
                device_id,
                source,
                aggregate_modifiers_of(s.keyboard),
                InputEventPayload::Pointer(PointerEvent::MotionRelative { dx, dy }),
                now,
            )
        },
        BackendEvent::MotionAbsolute { device_id, position } => {
            let p = pointer_state_or_initial(s.pointer, device_id);
            spec_emit(
                ServiceView {
                    pointer: s.pointer.insert(device_id, PointerStateView { position, buttons: p.buttons }),
                    ..s
                },
                device_id,
                source,
                aggregate_modifiers_of(s.keyboard),
                InputEventPayload::Pointer(PointerEvent::MotionAbsolute { position }),
                now,
            )
        },
        BackendEvent::PointerButton { device_id, button, pressed } => {
            let p = pointer_state_or_initial(s.pointer, device_id);
            spec_emit(
                ServiceView {
                    pointer: s.pointer.insert(
                        device_id,
                        PointerStateView {
                            position: p.position,
                            buttons: if pressed {
                                p.buttons.insert(button)
                            } else {
                                p.buttons.remove(button)
                            },
                        },
                    ),
                    ..s
                },
                device_id,
                source,
                aggregate_modifiers_of(s.keyboard),
                InputEventPayload::Pointer(PointerEvent::Button { button, pressed }),
                now,
            )
        },
        BackendEvent::Scroll { device_id, axis, delta, high_resolution } => spec_emit(
            s,
            device_id,
            source,
            aggregate_modifiers_of(s.keyboard),
            InputEventPayload::Pointer(PointerEvent::Scroll { axis, delta, high_resolution }),
            now,
        ),
        BackendEvent::Touch { device_id, event } => spec_emit(
            ServiceView {
                touch: s.touch.insert(device_id, apply_touch(contacts_or_none(s.touch, device_id), event)),
                ..s
            },
            device_id,
            source,
            aggregate_modifiers_of(s.keyboard),
            InputEventPayload::Touch(event),
            now,
        ),
        BackendEvent::Tablet { device_id, event } => spec_emit(
            s,
            device_id,
            source,
            aggregate_modifiers_of(s.keyboard),
            InputEventPayload::Tablet(event),
            now,
        ),
        BackendEvent::Gamepad { device_id, event } => spec_emit(
            s,
            device_id,
            source,
            Modifiers::spec_none(),
            InputEventPayload::Gamepad(event),
            now,
        ),
    }
}

/// The orchestrator: owns the device registry, per-device keyboard, pointer and touch
/// state, sequencing, coalescing and capture bookkeeping. Backends only hand it
/// [`BackendEvent`]s; consumers receive the normalized, ordered, coalesced events it
/// returns.
pub struct InputService<L> {
    registry: DeviceRegistry,
    sequence: SequenceCounter,
    config: InputConfig,
    layout: L,
    keyboard_state: KeyboardStateTable,
    pointer_state: PointerStateTable,
    touch_state: TouchStateTable,
    coalescer: Coalescer,
    captures: CaptureRegistry,
}

impl<L> View for InputService<L> {
    type V = ServiceView;

    closed spec fn view(&self) -> ServiceView {
        ServiceView {
            devices: self.registry@,
            next_sequence: self.sequence@,
            keyboard: self.keyboard_state@,
            pointer: self.pointer_state@,
            touch: self.touch_state@,
            pending: self.coalescer@,
            captures: self.captures@,
        }
    }
}

impl InputService<UsQwertyLayout> {
    /// A service with no devices, the given configuration and the US QWERTY layout.
    pub fn new(config: InputConfig) -> (s: InputService<UsQwertyLayout>)
        ensures
            s.wf(),
            s.spec_config() == config,
            s@.devices == Map::<InputDeviceId, InputDeviceView>::empty(),
            s@.next_sequence == 0,
            s@.keyboard == Map::<InputDeviceId, Set<PhysicalKey>>::empty(),
            s@.pointer == Map::<InputDeviceId, PointerStateView>::empty(),
            s@.touch == Map::<InputDeviceId, Map<ContactId, TouchContact>>::empty(),
            s@.pending == Seq::<InputEvent>::empty(),
            s@.captures.next_id == 0,
            s@.captures.active == Map::<CaptureKind, crate::capture::ActiveCaptureView>::empty(),
    {
        InputService::with_layout(config, UsQwertyLayout)
    }
}

impl<L: KeyboardLayout> InputService<L> {
    pub closed spec fn wf(&self) -> bool {
        &&& self.registry.wf()
        &&& self.keyboard_state.wf()
        &&& self.pointer_state.wf()
        &&& self.touch_state.wf()
        &&& self.coalescer.wf()
        &&& self.captures.wf()
    }

    /// The samples waiting in a service are coalescible, one per slot, and in sequence
    /// order.
    pub proof fn law_waiting_samples_are_well_formed(&self)
        requires
            self.wf(),
        ensures
            pending_wf(self@.pending),
    {
    }

    pub closed spec fn spec_config(&self) -> InputConfig {
        self.config
    }

    pub closed spec fn spec_layout(&self) -> L {
        self.layout
    }

    /// A service with no devices, the given configuration and layout.
    pub fn with_layout(config: InputConfig, layout: L) -> (s: InputService<L>)
        ensures
            s.wf(),
            s.spec_config() == config,
            s.spec_layout() == layout,
            s@.devices == Map::<InputDeviceId, InputDeviceView>::empty(),
            s@.next_sequence == 0,
            s@.keyboard == Map::<InputDeviceId, Set<PhysicalKey>>::empty(),
            s@.pointer == Map::<InputDeviceId, PointerStateView>::empty(),
            s@.touch == Map::<InputDeviceId, Map<ContactId, TouchContact>>::empty(),
            s@.pending == Seq::<InputEvent>::empty(),
            s@.captures.next_id == 0,
            s@.captures.active == Map::<CaptureKind, crate::capture::ActiveCaptureView>::empty(),
    {
        InputService {
            registry: DeviceRegistry::new(),
            sequence: SequenceCounter::new(),
            config,
            layout,
            keyboard_state: KeyboardStateTable::new(),
            pointer_state: PointerStateTable::new(),
            touch_state: TouchStateTable::new(),
            coalescer: Coalescer::new(),
            captures: CaptureRegistry::new(),
        }
    }

    pub fn registry(&self) -> (r: &DeviceRegistry)
        requires
            self.wf(),
        ensures
            r.wf(),
            r@ == self@.devices,
    {
        &self.registry
    }

    pub fn captures(&self) -> (r: &CaptureRegistry)
        requires
            self.wf(),
        ensures
            r.wf(),
            r@ == self@.captures,
    {
        &self.captures
    }

    pub fn keyboard_state(&self) -> (r: &KeyboardStateTable)
        requires
            self.wf(),
        ensures
            r.wf(),
            r@ == self@.keyboard,
    {
        &self.keyboard_state
    }

    pub fn pointer_state(&self) -> (r: &PointerStateTable)
        requires
            self.wf(),
        ensures
            r.wf(),
            r@ == self@.pointer,
    {
        &self.pointer_state
    }

    pub fn touch_state(&self) -> (r: &TouchStateTable)
        requires
            self.wf(),
        ensures
            r.wf(),
            r@ == self@.touch,
    {
        &self.touch_state
    }

    /// A copy of the configuration.
    pub fn config(&self) -> (c: InputConfig)
        ensures
            c == self.spec_config(),
    {
        self.config.clone()
    }

    pub fn set_config(&mut self, config: InputConfig)
        ensures
            final(self).spec_config() == config,
            final(self).spec_layout() == old(self).spec_layout(),
            final(self)@ == old(self)@,
            final(self).wf() == old(self).wf(),
    {
        self.config = config;
    }

    pub fn set_layout(&mut self, layout: L)
        ensures
            final(self).spec_layout() == layout,
            final(self).spec_config() == old(self).spec_config(),
            final(self)@ == old(self)@,
            final(self).wf() == old(self).wf(),
    {
        self.layout = layout;
    }

    /// Requests exclusive input of `kind` for `owner` (`pointer_mode` matters only for
    /// pointer captures); refused while another capture of that kind is active.
    pub fn request_capture(
        &mut self,
        kind: CaptureKind,
        owner: &str,
        reason: &str,
        pointer_mode: Option<PointerGrabMode>,
    ) -> (r: Result<CaptureGuard>)
        requires
            old(self).wf(),
        ensures
            final(self).wf(),
            final(self)@ == (ServiceView {
                captures: spec_acquire(old(self)@.captures, kind, owner@, reason@, pointer_mode),
                ..old(self)@
            }),
            old(self)@.captures.active.contains_key(kind) ==> r is Err,
            !old(self)@.captures.active.contains_key(kind) ==> (r matches Ok(g) && g.spec_kind() == kind
                && g.spec_id().0 == old(self)@.captures.next_id),
            final(self).spec_config() == old(self).spec_config(),
            final(self).spec_layout() == old(self).spec_layout(),
    {
        self.captures.acquire(kind, owner, reason, pointer_mode)
    }

    /// Ends the capture `guard` stands for.
    pub fn release_capture(&mut self, guard: CaptureGuard)
        requires
            old(self).wf(),
        ensures
            final(self).wf(),
            final(self)@ == (ServiceView {
                captures: spec_release(old(self)@.captures, guard.spec_kind(), guard.spec_id()),
                ..old(self)@
            }),
            final(self).spec_config() == old(self).spec_config(),
            final(self).spec_layout() == old(self).spec_layout(),
    {
        guard.release(&mut self.captures);
    }

    /// Delivers every coalesced sample not delivered yet, in order (call once per
    /// frame so coalescing never adds more than a frame of latency).
    pub fn flush_coalesced(&mut self) -> (out: Vec<InputEvent>)
        requires
            old(self).wf(),
        ensures
            final(self).wf(),
            out@ == old(self)@.pending,
            crate::coalesce::sorted_by_sequence(out@),
            final(self)@ == (ServiceView { pending: Seq::empty(), ..old(self)@ }),
            final(self).spec_config() == old(self).spec_config(),
            final(self).spec_layout() == old(self).spec_layout(),
    {
        self.coalescer.drain_all()
    }
}


/// An event that is never coalesced is delivered right away, after the pending
/// samples of its device.
pub proof fn lemma_emit_final(
    s: ServiceView,
    device: InputDeviceId,
    source: InputSource,
    modifiers: Modifiers,
    payload: InputEventPayload,
    now: Timestamp,
)
    requires
        crate::coalesce::spec_coalesce_key(payload) is None,
    ensures
        spec_emit(s, device, source, modifiers, payload, now) == spec_emit_final(s, device, source, modifiers, payload@, now),
{
    let e = InputEvent {
        timestamp: now,
        sequence: SequenceNumber(s.next_sequence),
        device_id: device,
        source,
        modifiers,
        payload,
    };
    of_device(s.pending, device).lemma_push_map_commute(|x: InputEvent| x@, e);
    assert(event_views(of_device(s.pending, device).push(e)) =~= event_views(of_device(s.pending, device)).push(e@));
}

impl<L: KeyboardLayout> InputService<L> {
    /// Stamps and offers one event; returns what the coalescer delivers.
    fn emit(
        &mut self,
        device: InputDeviceId,
        source: InputSource,
        modifiers: Modifiers,
        payload: InputEventPayload,
        now: Timestamp,
    ) -> (out: Vec<InputEvent>)
        requires
            old(self).wf(),
        ensures
            final(self).wf(),
            final(self).spec_config() == old(self).spec_config(),
            final(self).spec_layout() == old(self).spec_layout(),
            (final(self)@, event_views(out@)) == spec_emit(old(self)@, device, source, modifiers, payload, now),
    {
        let sequence = self.sequence.next();
        let event = InputEvent { timestamp: now, sequence, device_id: device, source, modifiers, payload };
        let out = self.coalescer.offer(event);
        out
    }

    /// Normalizes one backend event reported with `source` at time `now`; returns the
    /// events ready for delivery, in order (see [`spec_ingest`]).
    pub fn ingest_at(&mut self, event: BackendEvent, source: InputSource, now: Timestamp) -> (out: Vec<InputEvent>)
        requires
            old(self).wf(),
        ensures
            final(self).wf(),
            final(self).spec_config() == old(self).spec_config(),
            final(self).spec_layout() == old(self).spec_layout(),
            (final(self)@, event_views(out@)) == spec_ingest(old(self).spec_layout(), old(self)@, event, source, now),
    {
        let ghost s = self@;
        match event {
            BackendEvent::DeviceAdded(device) => {
                let device_id = device.id;
                let copy = device.duplicate();
                match self.registry.add(copy) {
                    Err(_) => {
                        proof {
                            assert(event_views(Seq::<InputEvent>::empty()) =~= Seq::<InputEventView>::empty());
                        }
                        return Vec::new();
                    },
                    Ok(()) => {},
                }
                let ghost dv = device@;
                proof {
                    lemma_emit_final(
                        ServiceView { devices: s.devices.insert(device_id, dv), ..s },
                        device_id,
                        source,
                        Modifiers::spec_none(),
                        InputEventPayload::DeviceAdded(device),
                        now,
                    );
                }
                self.emit(device_id, source, Modifiers::none(), InputEventPayload::DeviceAdded(device), now)
            },
            BackendEvent::DeviceRemoved(device_id) => {
                let _ = self.registry.remove(device_id);
                self.keyboard_state.remove(device_id);
                self.pointer_state.remove(device_id);
                self.touch_state.remove(device_id);
                let _ = self.coalescer.drain_device(device_id);
                self.emit(device_id, source, Modifiers::none(), InputEventPayload::DeviceRemoved(device_id), now)
            },
            BackendEvent::Key { device_id, physical_key, pressed } => {
                let (modifiers, was_pressed) = self.keyboard_state.note_key(device_id, physical_key, pressed);
                let logical = self.layout.map(physical_key, modifiers);
                let text = if pressed {
                    self.layout.text_for(logical, modifiers)
                } else {
                    None
                };
                let action = if !pressed {
                    KeyAction::Up
                } else if was_pressed {
                    KeyAction::Repeat
                } else {
                    KeyAction::Down
                };
                let payload = InputEventPayload::Keyboard(
                    KeyboardEvent { physical_key, logical_key: logical, text, action },
                );
                proof {
                    let held = held_keys(s.keyboard, device_id);
                    let now_held = if pressed {
                        held.insert(physical_key)
                    } else {
                        held.remove(physical_key)
                    };
                    assert(self@ == ServiceView { keyboard: s.keyboard.insert(device_id, now_held), ..s });
                    lemma_emit_final(self@, device_id, source, modifiers, payload, now);
                }
                self.emit(device_id, source, modifiers, payload, now)
            },
            BackendEvent::MotionRelative { device_id, dx, dy } => {
                let modifiers = self.keyboard_state.aggregate();
                self.pointer_state.apply_relative(device_id, dx, dy);
                self.emit(
                    device_id,
                    source,
                    modifiers,
                    InputEventPayload::Pointer(PointerEvent::MotionRelative { dx, dy }),
                    now,
                )
            },
            BackendEvent::MotionAbsolute { device_id, position } => {
                let modifiers = self.keyboard_state.aggregate();
                self.pointer_state.apply_absolute(device_id, position);
                self.emit(
                    device_id,
                    source,
                    modifiers,
                    InputEventPayload::Pointer(PointerEvent::MotionAbsolute { position }),
                    now,
                )
            },
            BackendEvent::PointerButton { device_id, button, pressed } => {
                let modifiers = self.keyboard_state.aggregate();
                self.pointer_state.note_button(device_id, button, pressed);
                self.emit(
                    device_id,
                    source,
                    modifiers,
                    InputEventPayload::Pointer(PointerEvent::Button { button, pressed }),
                    now,
                )
            },
            BackendEvent::Scroll { device_id, axis, delta, high_resolution } => {
                let modifiers = self.keyboard_state.aggregate();
                self.emit(
                    device_id,
                    source,
                    modifiers,
                    InputEventPayload::Pointer(PointerEvent::Scroll { axis, delta, high_resolution }),
                    now,
                )
            },
            BackendEvent::Touch { device_id, event } => {
                let modifiers = self.keyboard_state.aggregate();
                self.touch_state.apply(device_id, &event);
                self.emit(device_id, source, modifiers, InputEventPayload::Touch(event), now)
            },
            BackendEvent::Tablet { device_id, event } => {
                let modifiers = self.keyboard_state.aggregate();
                self.emit(device_id, source, modifiers, InputEventPayload::Tablet(event), now)
            },
            BackendEvent::Gamepad { device_id, event } => {
                self.emit(device_id, source, Modifiers::none(), InputEventPayload::Gamepad(event), now)
            },
        }
    }
}

/// Whether `grant` allows submitting `event` as synthetic input: keyboard events need
/// keyboard permission; motion, button and scroll events need pointer permission;
/// touch events need touch permission. No grant covers device hotplug, tablet or
/// gamepad events.
pub open spec fn grant_covers(grant: SyntheticInputGrant, event: BackendEvent) -> bool {
    match event {
        BackendEvent::Key { .. } => grant.allows_keyboard,
        BackendEvent::MotionRelative { .. } => grant.allows_pointer,
        BackendEvent::MotionAbsolute { .. } => grant.allows_pointer,
        BackendEvent::PointerButton { .. } => grant.allows_pointer,
        BackendEvent::Scroll { .. } => grant.allows_pointer,
        BackendEvent::Touch { .. } => grant.allows_touch,
        BackendEvent::DeviceAdded(_) => false,
        BackendEvent::DeviceRemoved(_) => false,
        BackendEvent::Tablet { .. } => false,
        BackendEvent::Gamepad { .. } => false,
    }
}

/// The name of a synthetic origin, as it appears in messages.
pub open spec fn origin_name(origin: SyntheticOrigin) -> Seq<char> {
    match origin {
        SyntheticOrigin::AccessibilityTool => "AccessibilityTool"@,
        SyntheticOrigin::AutomatedTesting => "AutomatedTesting"@,
        SyntheticOrigin::RemoteDesktop => "RemoteDesktop"@,
        SyntheticOrigin::AiAgent => "AiAgent"@,
        SyntheticOrigin::SystemTool => "SystemTool"@,
    }
}

/// The message of a refused synthetic submission.
pub open spec fn synthetic_denied_text(origin: SyntheticOrigin) -> Seq<char> {
    "grant for "@ + origin_name(origin) + " does not cover this event kind"@
}

fn origin_label(origin: SyntheticOrigin) -> (s: &'static str)
    ensures
        s@ == origin_name(origin),
{
    match origin {
        SyntheticOrigin::AccessibilityTool => "AccessibilityTool",
        SyntheticOrigin::AutomatedTesting => "AutomatedTesting",
        SyntheticOrigin::RemoteDesktop => "RemoteDesktop",
        SyntheticOrigin::AiAgent => "AiAgent",
        SyntheticOrigin::SystemTool => "SystemTool",
    }
}

fn covers(grant: &SyntheticInputGrant, event: &BackendEvent) -> (b: bool)
    ensures
        b == grant_covers(*grant, *event),
{
    match event {
        BackendEvent::Key { .. } => grant.allows_keyboard,
        BackendEvent::MotionRelative { .. } => grant.allows_pointer,
        BackendEvent::MotionAbsolute { .. } => grant.allows_pointer,
        BackendEvent::PointerButton { .. } => grant.allows_pointer,
        BackendEvent::Scroll { .. } => grant.allows_pointer,
        BackendEvent::Touch { .. } => grant.allows_touch,
        BackendEvent::DeviceAdded(_) => false,
        BackendEvent::DeviceRemoved(_) => false,
        BackendEvent::Tablet { .. } => false,
        BackendEvent::Gamepad { .. } => false,
    }
}

impl<L: KeyboardLayout> InputService<L> {
    /// Normalizes one backend event from `source`, stamped with the current time.
    pub fn ingest(&mut self, event: BackendEvent, source: InputSource) -> (out: Vec<InputEvent>)
        requires
            old(self).wf(),
        ensures
            final(self).wf(),
            final(self).spec_config() == old(self).spec_config(),
            final(self).spec_layout() == old(self).spec_layout(),
            exists|now: Timestamp|
                (final(self)@, event_views(out@)) == #[trigger] spec_ingest(old(self).spec_layout(), old(self)@, event, source, now),
    {
        let now = Timestamp::now();
        self.ingest_at(event, source, now)
    }

    /// Submits synthetic input under `grant` at time `now`: accepted only if the grant
    /// covers the event's kind, and then normalized exactly like physical input but
    /// tagged with the grant's origin. A refused submission changes nothing.
    pub fn submit_synthetic_at(&mut self, grant: &SyntheticInputGrant, event: BackendEvent, now: Timestamp) -> (r: Result<
        Vec<InputEvent>,
    >)
        requires
            old(self).wf(),
        ensures
            final(self).wf(),
            final(self).spec_config() == old(self).spec_config(),
            final(self).spec_layout() == old(self).spec_layout(),
            !grant_covers(*grant, event) ==> final(self)@ == old(self)@ && (r matches Err(Error::SyntheticInputDenied(text))
                && text@ == synthetic_denied_text(grant.origin)),
            grant_covers(*grant, event) ==> (r matches Ok(out) && (final(self)@, event_views(out@)) == spec_ingest(
                old(self).spec_layout(),
                old(self)@,
                event,
                InputSource::Synthetic(grant.origin),
                now,
            )),
    {
        if !covers(grant, &event) {
            let mut text = String::from_str("grant for ");
            text.append(origin_label(grant.origin));
            text.append(" does not cover this event kind");
            return Err(Error::SyntheticInputDenied(text));
        }
        Ok(self.ingest_at(event, InputSource::Synthetic(grant.origin), now))
    }

    /// [`InputService::submit_synthetic_at`] stamped with the current time.
    pub fn submit_synthetic(&mut self, grant: &SyntheticInputGrant, event: BackendEvent) -> (r: Result<Vec<InputEvent>>)
        requires
            old(self).wf(),
        ensures
            final(self).wf(),
            final(self).spec_config() == old(self).spec_config(),
            final(self).spec_layout() == old(self).spec_layout(),
            !grant_covers(*grant, event) ==> final(self)@ == old(self)@ && (r matches Err(Error::SyntheticInputDenied(text))
                && text@ == synthetic_denied_text(grant.origin)),
            grant_covers(*grant, event) ==> (r matches Ok(out) && exists|now: Timestamp|
                (final(self)@, event_views(out@)) == #[trigger] spec_ingest(
                    old(self).spec_layout(),
                    old(self)@,
                    event,
                    InputSource::Synthetic(grant.origin),
                    now,
                )),
    {
        let now = Timestamp::now();
        self.submit_synthetic_at(grant, event, now)
    }
}

/// Every pending sample was numbered before the counter's current value.
pub open spec fn pending_before_counter(s: ServiceView) -> bool {
    forall|i: int| 0 <= i < s.pending.len() ==> #[trigger] s.pending[i].sequence.0 < s.next_sequence
}

/// Delivered events are in sequence-number order.
pub open spec fn views_in_sequence_order(out: Seq<InputEventView>) -> bool {
    forall|i: int, j: int| 0 <= i < j < out.len() ==> #[trigger] out[i].sequence.0 <= #[trigger] out[j].sequence.0
}

/// What sequencing guarantees of one step from `s` to `t` delivering `out`.
pub open spec fn sequenced_step(s: ServiceView, t: ServiceView, out: Seq<InputEventView>) -> bool {
    &&& pending_wf(t.pending)
    &&& pending_before_counter(t)
    &&& views_in_sequence_order(out)
    &&& forall|i: int| 0 <= i < out.len() ==> #[trigger] out[i].sequence.0 < t.next_sequence
    &&& (t.next_sequence == s.next_sequence + 1 || (t == s && out.len() == 0))
}

proof fn lemma_emit_sequenced(
    s: ServiceView,
    device: InputDeviceId,
    source: InputSource,
    modifiers: Modifiers,
    payload: InputEventPayload,
    now: Timestamp,
)
    requires
        pending_wf(s.pending),
        pending_before_counter(s),
        s.next_sequence < u64::MAX,
    ensures
        ({
            let (t, out) = spec_emit(s, device, source, modifiers, payload, now);
            sequenced_step(s, t, out)
        }),
{
    let e = InputEvent {
        timestamp: now,
        sequence: SequenceNumber(s.next_sequence),
        device_id: device,
        source,
        modifiers,
        payload,
    };
    lemma_offer_sequencing(s.pending, e);
    let (t, out) = spec_emit(s, device, source, modifiers, payload, now);
    let raw = spec_offer(s.pending, e).1;
    assert forall|a: int, b: int| 0 <= a < b < out.len() implies #[trigger] out[a].sequence.0 <= #[trigger] out[b].sequence.0 by {
        assert(out[a] == raw[a]@ && out[b] == raw[b]@);
    }
    assert forall|a: int| 0 <= a < out.len() implies #[trigger] out[a].sequence.0 < t.next_sequence by {
        assert(out[a] == raw[a]@);
    }
}

proof fn lemma_emit_final_sequenced(
    s: ServiceView,
    device: InputDeviceId,
    source: InputSource,
    modifiers: Modifiers,
    payload: InputEventPayload,
    now: Timestamp,
)
    requires
        pending_wf(s.pending),
        pending_before_counter(s),
        s.next_sequence < u64::MAX,
        spec_coalesce_key(payload) is None,
    ensures
        ({
            let (t, out) = spec_emit_final(s, device, source, modifiers, payload@, now);
            sequenced_step(s, t, out)
        }),
{
    lemma_emit_final(s, device, source, modifiers, payload, now);
    lemma_emit_sequenced(s, device, source, modifiers, payload, now);
}

/// Ordering: every event is stamped with the counter's next number and the counter
/// moves on by one, so "A happened before B" is answerable from sequence numbers.
/// The events delivered by one step are in sequence order, coalesced samples wait
/// in sequence order, and nothing pending or delivered is numbered at or above the
/// counter. (The counter wraps after `u64::MAX` events; the law is stated before
/// that.)
pub proof fn law_ingest_keeps_sequence_order<L: KeyboardLayout>(
    layout: L,
    s: ServiceView,
    event: BackendEvent,
    source: InputSource,
    now: Timestamp,
)
    requires
        pending_wf(s.pending),
        pending_before_counter(s),
        s.next_sequence < u64::MAX,
    ensures
        ({
            let (t, out) = spec_ingest(layout, s, event, source, now);
            sequenced_step(s, t, out)
        }),
{
    match event {
        BackendEvent::DeviceAdded(device) => {
            if !s.devices.contains_key(device.id) {
                lemma_emit_final_sequenced(
                    ServiceView { devices: s.devices.insert(device.id, device@), ..s },
                    device.id,
                    source,
                    Modifiers::spec_none(),
                    InputEventPayload::DeviceAdded(device),
                    now,
                );
            }
        },
        BackendEvent::DeviceRemoved(id) => {
            let cleared = ServiceView {
                devices: s.devices.remove(id),
                keyboard: s.keyboard.remove(id),
                pointer: s.pointer.remove(id),
                touch: s.touch.remove(id),
                pending: not_of_device(s.pending, id),
                ..s
            };
            lemma_filter_wf(s.pending, |e: InputEvent| e.device_id != id);
            assert forall|i: int| 0 <= i < cleared.pending.len() implies #[trigger] cleared.pending[i].sequence.0
                < cleared.next_sequence by {
                assert(cleared.pending.contains(cleared.pending[i]));
                s.pending.lemma_filter_contains_rev(|e: InputEvent| e.device_id != id, cleared.pending[i]);
            }
            lemma_emit_sequenced(cleared, id, source, Modifiers::spec_none(), InputEventPayload::DeviceRemoved(id), now);
        },
        BackendEvent::Key { device_id, physical_key, pressed } => {
            let held = held_keys(s.keyboard, device_id);
            let now_held = if pressed {
                held.insert(physical_key)
            } else {
                held.remove(physical_key)
            };
            let modifiers = modifiers_of(now_held);
            let logical = layout.spec_map(physical_key, modifiers);
            let kv = KeyboardEventView {
                physical_key,
                logical_key: logical,
                text: if pressed {
                    layout.spec_text_for(logical, modifiers)
                } else {
                    None
                },
                action: key_action(pressed, held.contains(physical_key)),
            };
            let s2 = ServiceView { keyboard: s.keyboard.insert(device_id, now_held), ..s };
            let e = InputEventView {
                timestamp: now,
                sequence: SequenceNumber(s2.next_sequence),
                device_id,
                source,
                modifiers,
                payload: InputEventPayloadView::Keyboard(kv),
            };
            let mine = of_device(s2.pending, device_id);
            crate::coalesce::law_drains_deliver_in_sequence_order(s2.pending, device_id);
            let (t, out) = spec_ingest(layout, s, event, source, now);
            assert(out == event_views(mine).push(e));
            assert forall|j: int| 0 <= j < mine.len() implies #[trigger] mine[j].sequence.0 < s.next_sequence by {
                assert(mine.contains(mine[j]));
                s2.pending.lemma_filter_contains_rev(|x: InputEvent| x.device_id == device_id, mine[j]);
            }
            assert forall|j: int| 0 <= j < t.pending.len() implies #[trigger] t.pending[j].sequence.0 < t.next_sequence by {
                assert(t.pending.contains(t.pending[j]));
                s2.pending.lemma_filter_contains_rev(|x: InputEvent| x.device_id != device_id, t.pending[j]);
            }
            assert forall|a: int, b: int| 0 <= a < b < out.len() implies #[trigger] out[a].sequence.0 <= #[trigger] out[b].sequence.0 by {
                if b < out.len() - 1 {
                    assert(out[a] == mine[a]@ && out[b] == mine[b]@);
                } else {
                    assert(out[a] == mine[a]@);
                }
            }
            assert forall|a: int| 0 <= a < out.len() implies #[trigger] out[a].sequence.0 < t.next_sequence by {
                if a < out.len() - 1 {
                    assert(out[a] == mine[a]@);
                }
            }
        },
        BackendEvent::MotionRelative { device_id, dx, dy } => {
            let p = pointer_state_or_initial(s.pointer, device_id);
            lemma_emit_sequenced(
                ServiceView {
                    pointer: s.pointer.insert(
                        device_id,
                        PointerStateView {
                            position: NormalizedPosition {
                                x: saturating_sum(p.position.x, dx),
                                y: saturating_sum(p.position.y, dy),
                            },
                            buttons: p.buttons,
                        },
                    ),
                    ..s
                },
                device_id,
                source,
                aggregate_modifiers_of(s.keyboard),
                InputEventPayload::Pointer(PointerEvent::MotionRelative { dx, dy }),
                now,
            );
        },
        BackendEvent::MotionAbsolute { device_id, position } => {
            let p = pointer_state_or_initial(s.pointer, device_id);
            lemma_emit_sequenced(
                ServiceView {
                    pointer: s.pointer.insert(device_id, PointerStateView { position, buttons: p.buttons }),
                    ..s
                },
                device_id,
                source,
                aggregate_modifiers_of(s.keyboard),
                InputEventPayload::Pointer(PointerEvent::MotionAbsolute { position }),
                now,
            );
        },
        BackendEvent::PointerButton { device_id, button, pressed } => {
            let p = pointer_state_or_initial(s.pointer, device_id);
            lemma_emit_sequenced(
                ServiceView {
                    pointer: s.pointer.insert(
                        device_id,
                        PointerStateView {
                            position: p.position,
                            buttons: if pressed {
                                p.buttons.insert(button)
                            } else {
                                p.buttons.remove(button)
                            },
                        },
                    ),
                    ..s
                },
                device_id,
                source,
                aggregate_modifiers_of(s.keyboard),
                InputEventPayload::Pointer(PointerEvent::Button { button, pressed }),
                now,
            );
        },
        BackendEvent::Scroll { device_id, axis, delta, high_resolution } => {
            lemma_emit_sequenced(
                s,
                device_id,
                source,
                aggregate_modifiers_of(s.keyboard),
                InputEventPayload::Pointer(PointerEvent::Scroll { axis, delta, high_resolution }),
                now,
            );
        },
        BackendEvent::Touch { device_id, event } => {
            lemma_emit_sequenced(
                ServiceView {
                    touch: s.touch.insert(device_id, apply_touch(contacts_or_none(s.touch, device_id), event)),
                    ..s
                },
                device_id,
                source,
                aggregate_modifiers_of(s.keyboard),
                InputEventPayload::Touch(event),
                now,
            );
        },
        BackendEvent::Tablet { device_id, event } => {
            lemma_emit_sequenced(s, device_id, source, aggregate_modifiers_of(s.keyboard), InputEventPayload::Tablet(event), now);
        },
        BackendEvent::Gamepad { device_id, event } => {
            lemma_emit_sequenced(s, device_id, source, Modifiers::spec_none(), InputEventPayload::Gamepad(event), now);
        },
    }
}

/// What a step keeps of one device's delivery order: every event of `d` it delivers is
/// numbered above `bound`, so are `d`'s samples left waiting, and those are numbered
/// above every event of `d` it delivers.
pub open spec fn device_order_kept(t: ServiceView, out: Seq<InputEventView>, d: InputDeviceId, bound: u64) -> bool {
    &&& forall|j: int| 0 <= j < out.len() && #[trigger] out[j].device_id == d ==> out[j].sequence.0 > bound
    &&& device_numbered_above(t.pending, d, bound)
    &&& forall|i: int, j: int|
        0 <= i < t.pending.len() && 0 <= j < out.len() && #[trigger] t.pending[i].device_id == d
            && #[trigger] out[j].device_id == d ==> t.pending[i].sequence.0 > out[j].sequence.0
}

proof fn lemma_emit_device_order(
    s: ServiceView,
    device: InputDeviceId,
    source: InputSource,
    modifiers: Modifiers,
    payload: InputEventPayload,
    now: Timestamp,
    d: InputDeviceId,
    bound: u64,
)
    requires
        pending_wf(s.pending),
        bound < s.next_sequence,
        device_numbered_above(s.pending, d, bound),
    ensures
        ({
            let (t, out) = spec_emit(s, device, source, modifiers, payload, now);
            device_order_kept(t, out, d, bound)
        }),
{
    let e = InputEvent {
        timestamp: now,
        sequence: SequenceNumber(s.next_sequence),
        device_id: device,
        source,
        modifiers,
        payload,
    };
    lemma_offer_device_order(s.pending, e, d, bound);
    let (after, raw) = spec_offer(s.pending, e);
    let (t, out) = spec_emit(s, device, source, modifiers, payload, now);
    assert forall|j: int| 0 <= j < out.len() && #[trigger] out[j].device_id == d implies out[j].sequence.0 > bound by {
        assert(out[j] == raw[j]@);
    }
    assert forall|i: int, j: int|
        0 <= i < t.pending.len() && 0 <= j < out.len() && #[trigger] t.pending[i].device_id == d
            && #[trigger] out[j].device_id == d implies t.pending[i].sequence.0 > out[j].sequence.0 by {
        assert(out[j] == raw[j]@);
        assert(raw[j].device_id == d);
    }
}

proof fn lemma_emit_final_device_order(
    s: ServiceView,
    device: InputDeviceId,
    source: InputSource,
    modifiers: Modifiers,
    payload: InputEventPayloadView,
    now: Timestamp,
    d: InputDeviceId,
    bound: u64,
)
    requires
        bound < s.next_sequence,
        device_numbered_above(s.pending, d, bound),
    ensures
        ({
            let (t, out) = spec_emit_final(s, device, source, modifiers, payload, now);
            device_order_kept(t, out, d, bound)
        }),
{
    let (t, out) = spec_emit_final(s, device, source, modifiers, payload, now);
    let mine = of_device(s.pending, device);
    assert forall|j: int| 0 <= j < out.len() && #[trigger] out[j].device_id == d implies out[j].sequence.0 > bound by {
        if j < out.len() - 1 {
            assert(out[j] == mine[j]@);
            assert(mine.contains(mine[j]));
            s.pending.lemma_filter_contains_rev(|x: InputEvent| x.device_id == device, mine[j]);
        }
    }
    assert forall|i: int| 0 <= i < t.pending.len() && #[trigger] t.pending[i].device_id == d implies t.pending[i].sequence.0
        > bound by {
        assert(t.pending.contains(t.pending[i]));
        s.pending.lemma_filter_contains_rev(|x: InputEvent| x.device_id != device, t.pending[i]);
    }
    assert forall|i: int, j: int|
        0 <= i < t.pending.len() && 0 <= j < out.len() && #[trigger] t.pending[i].device_id == d
            && #[trigger] out[j].device_id == d implies t.pending[i].sequence.0 > out[j].sequence.0 by {
        assert(t.pending.contains(t.pending[i]));
        s.pending.lemma_filter_contains_rev(|x: InputEvent| x.device_id != device, t.pending[i]);
        if j < out.len() - 1 {
            assert(out[j] == mine[j]@);
            assert(mine.contains(mine[j]));
            s.pending.lemma_filter_contains_rev(|x: InputEvent| x.device_id == device, mine[j]);
        }
    }
}

/// Each device's events are delivered in the order they happened, across steps: if
/// every event of device `d` delivered so far is numbered at most `bound` and `d`'s
/// waiting samples are numbered above it, then one step delivers only events of `d`
/// numbered above `bound`, and what of `d` keeps waiting is numbered above all of them.
/// Each step's delivery is itself in sequence order (see
/// [`law_ingest_keeps_sequence_order`]), and a frame flush delivers the waiting samples
/// themselves, so by induction no event of a device ever reaches consumers ahead of an
/// earlier one of the same device, coalescing or not.
pub proof fn law_each_device_is_delivered_in_order<L: KeyboardLayout>(
    layout: L,
    s: ServiceView,
    event: BackendEvent,
    source: InputSource,
    now: Timestamp,
    d: InputDeviceId,
    bound: u64,
)
    requires
        pending_wf(s.pending),
        bound < s.next_sequence,
        device_numbered_above(s.pending, d, bound),
    ensures
        ({
            let (t, out) = spec_ingest(layout, s, event, source, now);
            device_order_kept(t, out, d, bound)
        }),
{
    match event {
        BackendEvent::DeviceAdded(device) => {
            if !s.devices.contains_key(device.id) {
                lemma_emit_final_device_order(
                    ServiceView { devices: s.devices.insert(device.id, device@), ..s },
                    device.id,
                    source,
                    Modifiers::spec_none(),
                    InputEventPayloadView::DeviceAdded(device@),
                    now,
                    d,
                    bound,
                );
            }
        },
        BackendEvent::DeviceRemoved(id) => {
            let cleared = ServiceView {
                devices: s.devices.remove(id),
                keyboard: s.keyboard.remove(id),
                pointer: s.pointer.remove(id),
                touch: s.touch.remove(id),
                pending: not_of_device(s.pending, id),
                ..s
            };
            lemma_filter_wf(s.pending, |e: InputEvent| e.device_id != id);
            assert forall|i: int| 0 <= i < cleared.pending.len() && #[trigger] cleared.pending[i].device_id == d implies cleared.pending[i].sequence.0
                > bound by {
                assert(cleared.pending.contains(cleared.pending[i]));
                s.pending.lemma_filter_contains_rev(|e: InputEvent| e.device_id != id, cleared.pending[i]);
            }
            lemma_emit_device_order(cleared, id, source, Modifiers::spec_none(), InputEventPayload::DeviceRemoved(id), now, d, bound);
        },
        BackendEvent::Key { device_id, physical_key, pressed } => {
            let held = held_keys(s.keyboard, device_id);
            let now_held = if pressed {
                held.insert(physical_key)
            } else {
                held.remove(physical_key)
            };
            let modifiers = modifiers_of(now_held);
            let logical = layout.spec_map(physical_key, modifiers);
            lemma_emit_final_device_order(
                ServiceView { keyboard: s.keyboard.insert(device_id, now_held), ..s },
                device_id,
                source,
                modifiers,
                InputEventPayloadView::Keyboard(
                    KeyboardEventView {
                        physical_key,
                        logical_key: logical,
                        text: if pressed {
                            layout.spec_text_for(logical, modifiers)
                        } else {
                            None
                        },
                        action: key_action(pressed, held.contains(physical_key)),
                    },
                ),
                now,
                d,
                bound,
            );
        },
        BackendEvent::MotionRelative { device_id, dx, dy } => {
            let p = pointer_state_or_initial(s.pointer, device_id);
            lemma_emit_device_order(
                ServiceView {
                    pointer: s.pointer.insert(
                        device_id,
                        PointerStateView {
                            position: NormalizedPosition {
                                x: saturating_sum(p.position.x, dx),
                                y: saturating_sum(p.position.y, dy),
                            },
                            buttons: p.buttons,
                        },
                    ),
                    ..s
                },
                device_id,
                source,
                aggregate_modifiers_of(s.keyboard),
                InputEventPayload::Pointer(PointerEvent::MotionRelative { dx, dy }),
                now,
                d,
                bound,
            );
        },
        BackendEvent::MotionAbsolute { device_id, position } => {
            let p = pointer_state_or_initial(s.pointer, device_id);
            lemma_emit_device_order(
                ServiceView {
                    pointer: s.pointer.insert(device_id, PointerStateView { position, buttons: p.buttons }),
                    ..s
                },
                device_id,
                source,
                aggregate_modifiers_of(s.keyboard),
                InputEventPayload::Pointer(PointerEvent::MotionAbsolute { position }),
                now,
                d,
                bound,
            );
        },
        BackendEvent::PointerButton { device_id, button, pressed } => {
            let p = pointer_state_or_initial(s.pointer, device_id);
            lemma_emit_device_order(
                ServiceView {
                    pointer: s.pointer.insert(
                        device_id,
                        PointerStateView {
                            position: p.position,
                            buttons: if pressed {
                                p.buttons.insert(button)
                            } else {
                                p.buttons.remove(button)
                            },
                        },
                    ),
                    ..s
                },
                device_id,
                source,
                aggregate_modifiers_of(s.keyboard),
                InputEventPayload::Pointer(PointerEvent::Button { button, pressed }),
                now,
                d,
                bound,
            );
        },
        BackendEvent::Scroll { device_id, axis, delta, high_resolution } => {
            lemma_emit_device_order(
                s,
                device_id,
                source,
                aggregate_modifiers_of(s.keyboard),
                InputEventPayload::Pointer(PointerEvent::Scroll { axis, delta, high_resolution }),
                now,
                d,
                bound,
            );
        },
        BackendEvent::Touch { device_id, event } => {
            lemma_emit_device_order(
                ServiceView {
                    touch: s.touch.insert(device_id, apply_touch(contacts_or_none(s.touch, device_id), event)),
                    ..s
                },
                device_id,
                source,
                aggregate_modifiers_of(s.keyboard),
                InputEventPayload::Touch(event),
                now,
                d,
                bound,
            );
        },
        BackendEvent::Tablet { device_id, event } => {
            lemma_emit_device_order(s, device_id, source, aggregate_modifiers_of(s.keyboard), InputEventPayload::Tablet(event), now, d, bound);
        },
        BackendEvent::Gamepad { device_id, event } => {
            lemma_emit_device_order(s, device_id, source, Modifiers::spec_none(), InputEventPayload::Gamepad(event), now, d, bound);
        },
    }
}

/// Hotplug: adding an unregistered device registers it and announces it (last, with
/// no modifiers); adding an id that is already registered changes nothing and
/// announces nothing.
pub proof fn law_device_added_registers_once<L: KeyboardLayout>(
    layout: L,
    s: ServiceView,
    device: InputDevice,
    source: InputSource,
    now: Timestamp,
)
    ensures
        ({
            let (t, out) = spec_ingest(layout, s, BackendEvent::DeviceAdded(device), source, now);
            &&& !s.devices.contains_key(device.id) ==> {
                &&& t.devices == s.devices.insert(device.id, device@)
                &&& out.len() > 0
                &&& out.last().payload == InputEventPayloadView::DeviceAdded(device@)
                &&& out.last().device_id == device.id
                &&& out.last().modifiers == Modifiers::spec_none()
            }
            &&& s.devices.contains_key(device.id) ==> t == s && out.len() == 0
        }),
{
}

/// Unplugging a device unregisters it, forgets its keyboard, pointer and touch state
/// and its coalesced samples, and announces exactly the removal.
pub proof fn law_device_removed_forgets_it<L: KeyboardLayout>(
    layout: L,
    s: ServiceView,
    id: InputDeviceId,
    source: InputSource,
    now: Timestamp,
)
    ensures
        ({
            let (t, out) = spec_ingest(layout, s, BackendEvent::DeviceRemoved(id), source, now);
            &&& !t.devices.contains_key(id)
            &&& !t.keyboard.contains_key(id)
            &&& !t.pointer.contains_key(id)
            &&& !t.touch.contains_key(id)
            &&& forall|i: int| 0 <= i < t.pending.len() ==> (#[trigger] t.pending[i]).device_id != id
            &&& out.len() == 1
            &&& out[0].payload == InputEventPayloadView::DeviceRemoved(id)
            &&& out[0].device_id == id
            &&& out[0].source == source
        }),
{
    let keep = |e: InputEvent| e.device_id != id;
    let mine = |e: InputEvent| e.device_id == id;
    let cleared = not_of_device(s.pending, id);
    assert forall|i: int| 0 <= i < cleared.len() implies (#[trigger] cleared[i]).device_id != id by {
        s.pending.lemma_filter_pred(keep, i);
    }
    assert(of_device(cleared, id) =~= Seq::<InputEvent>::empty()) by {
        let f = of_device(cleared, id);
        if f.len() > 0 {
            assert(f.contains(f[0]));
            cleared.lemma_filter_contains_rev(mine, f[0]);
            cleared.lemma_filter_pred(mine, 0);
            let j = choose|j: int| 0 <= j < cleared.len() && cleared[j] == f[0];
            assert(cleared[j].device_id != id);
        }
    }
    assert(not_of_device(cleared, id) =~= cleared) by {
        lemma_filter_keeps_all(cleared, keep);
    }
    let (t, out) = spec_ingest(layout, s, BackendEvent::DeviceRemoved(id), source, now);
    assert(t.pending == cleared);
}

/// Filtering with a predicate every element satisfies changes nothing.
proof fn lemma_filter_keeps_all<A>(s: Seq<A>, p: spec_fn(A) -> bool)
    requires
        forall|i: int| 0 <= i < s.len() ==> p(#[trigger] s[i]),
    ensures
        s.filter(p) == s,
    decreases s.len(),
{
    reveal(Seq::filter);
    if s.len() > 0 {
        let t = s.drop_last();
        assert forall|i: int| 0 <= i < t.len() implies p(#[trigger] t[i]) by {
            assert(t[i] == s[i]);
        }
        lemma_filter_keeps_all(t, p);
        assert(t.push(s.last()) =~= s);
    }
}

/// Key state: pressing a key that is not held announces `Down` (with the layout's
/// text), pressing it again announces `Repeat`, releasing it announces `Up` with no
/// text; a press followed by a release leaves the device's held keys as before.
pub proof fn law_key_press_then_release<L: KeyboardLayout>(
    layout: L,
    s: ServiceView,
    device: InputDeviceId,
    key: PhysicalKey,
    source: InputSource,
    t1: Timestamp,
    t2: Timestamp,
)
    requires
        !held_keys(s.keyboard, device).contains(key),
    ensures
        ({
            let (a, out1) = spec_ingest(layout, s, BackendEvent::Key { device_id: device, physical_key: key, pressed: true }, source, t1);
            let (b, out2) = spec_ingest(layout, a, BackendEvent::Key { device_id: device, physical_key: key, pressed: false }, source, t2);
            let (c, out3) = spec_ingest(layout, a, BackendEvent::Key { device_id: device, physical_key: key, pressed: true }, source, t2);
            &&& out1.len() > 0 && out2.len() > 0 && out3.len() > 0
            &&& out1.last().payload matches InputEventPayloadView::Keyboard(k) && k.action == KeyAction::Down
                && k.physical_key == key
            &&& out2.last().payload matches InputEventPayloadView::Keyboard(k) && k.action == KeyAction::Up
                && k.text is None
            &&& out3.last().payload matches InputEventPayloadView::Keyboard(k) && k.action == KeyAction::Repeat
            &&& out1.last().sequence.0 == s.next_sequence
            &&& out2.last().sequence.0 == a.next_sequence
            &&& held_keys(b.keyboard, device) == held_keys(s.keyboard, device)
        }),
{
    let (a, out1) = spec_ingest(layout, s, BackendEvent::Key { device_id: device, physical_key: key, pressed: true }, source, t1);
    let held = held_keys(s.keyboard, device);
    assert(held_keys(a.keyboard, device) == held.insert(key));
    let (b, out2) = spec_ingest(layout, a, BackendEvent::Key { device_id: device, physical_key: key, pressed: false }, source, t2);
    assert(held_keys(b.keyboard, device) == held.insert(key).remove(key));
    assert(held.insert(key).remove(key) =~= held);
}

/// Scrolling carries the modifiers held on any keyboard (Ctrl+wheel reaches consumers
/// as Ctrl+scroll): a scroll report delivers nothing yet and leaves a waiting scroll
/// sample of its device and source, on its axis, numbered with the counter, whose
/// modifiers are those held across all keyboards before it.
pub proof fn law_modifiers_reach_scroll_events<L: KeyboardLayout>(
    layout: L,
    s: ServiceView,
    device: InputDeviceId,
    axis: crate::pointer::ScrollAxis,
    delta: i64,
    high_resolution: bool,
    source: InputSource,
    now: Timestamp,
)
    ensures
        ({
            let (t, out) = spec_ingest(
                layout,
                s,
                BackendEvent::Scroll { device_id: device, axis, delta, high_resolution },
                source,
                now,
            );
            &&& out.len() == 0
            &&& exists|i: int|
                0 <= i < t.pending.len() && #[trigger] t.pending[i].device_id == device && t.pending[i].source == source
                    && t.pending[i].sequence.0 == s.next_sequence && t.pending[i].modifiers == aggregate_modifiers_of(
                    s.keyboard,
                ) && crate::coalesce::scroll_on(t.pending[i].payload, axis)
        }),
{
    let e = InputEvent {
        timestamp: now,
        sequence: SequenceNumber(s.next_sequence),
        device_id: device,
        source,
        modifiers: aggregate_modifiers_of(s.keyboard),
        payload: InputEventPayload::Pointer(PointerEvent::Scroll { axis, delta, high_resolution }),
    };
    crate::coalesce::law_offered_sample_carries_its_stamp(s.pending, e);
    let (t, out) = spec_ingest(layout, s, BackendEvent::Scroll { device_id: device, axis, delta, high_resolution }, source, now);
    let key = spec_coalesce_key(e.payload)->0;
    let i = choose|i: int|
        0 <= i < t.pending.len() && #[trigger] crate::coalesce::in_slot(t.pending[i], e.device_id, e.source, key)
            && t.pending[i].sequence == e.sequence && t.pending[i].timestamp == e.timestamp
            && t.pending[i].modifiers == e.modifiers;
    assert(crate::coalesce::scroll_on(t.pending[i].payload, axis));
}

/// After Control is pressed on one keyboard, a scroll on any pointer waits with
/// `ctrl` held, and a frame flush delivers it so.
pub proof fn law_ctrl_reaches_scroll<L: KeyboardLayout>(
    layout: L,
    s: ServiceView,
    keyboard: InputDeviceId,
    mouse: InputDeviceId,
    axis: crate::pointer::ScrollAxis,
    delta: i64,
    high_resolution: bool,
    source: InputSource,
    t1: Timestamp,
    t2: Timestamp,
)
    ensures
        ({
            let (a, _) = spec_ingest(
                layout,
                s,
                BackendEvent::Key { device_id: keyboard, physical_key: PhysicalKey::ControlLeft, pressed: true },
                source,
                t1,
            );
            let (b, _) = spec_ingest(
                layout,
                a,
                BackendEvent::Scroll { device_id: mouse, axis, delta, high_resolution },
                source,
                t2,
            );
            exists|i: int|
                0 <= i < b.pending.len() && #[trigger] b.pending[i].device_id == mouse
                    && crate::coalesce::scroll_on(b.pending[i].payload, axis) && b.pending[i].modifiers.ctrl
        }),
{
    let (a, _) = spec_ingest(
        layout,
        s,
        BackendEvent::Key { device_id: keyboard, physical_key: PhysicalKey::ControlLeft, pressed: true },
        source,
        t1,
    );
    assert(a.keyboard.contains_key(keyboard));
    assert(a.keyboard[keyboard].contains(PhysicalKey::ControlLeft));
    assert(modifiers_of(a.keyboard[keyboard]).ctrl);
    assert(aggregate_modifiers_of(a.keyboard).ctrl);
    law_modifiers_reach_scroll_events(layout, a, mouse, axis, delta, high_resolution, source, t2);
}

/// Grants cover event kinds by permission: every pointer report (relative and
/// absolute motion, buttons, scrolling) exactly when pointer input is allowed, key
/// reports exactly when keyboard input is allowed, touch reports exactly when touch is
/// allowed, and hotplug, tablet and gamepad reports never.
pub proof fn law_grants_cover_by_permission(grant: SyntheticInputGrant, event: BackendEvent)
    ensures
        (event is MotionRelative || event is MotionAbsolute || event is PointerButton || event is Scroll) ==> (
        grant_covers(grant, event) == grant.allows_pointer),
        event is Key ==> (grant_covers(grant, event) == grant.allows_keyboard),
        event is Touch ==> (grant_covers(grant, event) == grant.allows_touch),
        (event is DeviceAdded || event is DeviceRemoved || event is Tablet || event is Gamepad) ==> !grant_covers(
            grant,
            event,
        ),
{
}

/// Modifiers held on any keyboard travel with pointer input: after Control is
/// pressed on one device, a button press on any pointer carries `ctrl`.
pub proof fn law_modifiers_reach_pointer_events<L: KeyboardLayout>(
    layout: L,
    s: ServiceView,
    keyboard: InputDeviceId,
    mouse: InputDeviceId,
    button: crate::pointer::PointerButton,
    source: InputSource,
    t1: Timestamp,
    t2: Timestamp,
)
    ensures
        ({
            let (a, _) = spec_ingest(
                layout,
                s,
                BackendEvent::Key { device_id: keyboard, physical_key: PhysicalKey::ControlLeft, pressed: true },
                source,
                t1,
            );
            let (_, out) = spec_ingest(
                layout,
                a,
                BackendEvent::PointerButton { device_id: mouse, button, pressed: true },
                source,
                t2,
            );
            out.len() > 0 && out.last().modifiers.ctrl
        }),
{
    let (a, _) = spec_ingest(
        layout,
        s,
        BackendEvent::Key { device_id: keyboard, physical_key: PhysicalKey::ControlLeft, pressed: true },
        source,
        t1,
    );
    assert(a.keyboard.contains_key(keyboard));
    assert(a.keyboard[keyboard].contains(PhysicalKey::ControlLeft));
    assert(modifiers_of(a.keyboard[keyboard]).ctrl);
    assert(aggregate_modifiers_of(a.keyboard).ctrl);
    let e = InputEvent {
        timestamp: t2,
        sequence: SequenceNumber(a.next_sequence),
        device_id: mouse,
        source,
        modifiers: aggregate_modifiers_of(a.keyboard),
        payload: InputEventPayload::Pointer(PointerEvent::Button { button, pressed: true }),
    };
    crate::coalesce::law_transition_events_flush_their_device_first(a.pending, e);
}

/// A coalescible event leaves a waiting sample with its sequence number and modifiers.
proof fn lemma_sample_waits_with_its_modifiers(pending: Seq<InputEvent>, e: InputEvent)
    requires
        spec_coalesce_key(e.payload) is Some,
    ensures
        ({
            let after = spec_offer(pending, e).0;
            exists|i: int|
                0 <= i < after.len() && after[i].sequence.0 == e.sequence.0 && #[trigger] after[i].modifiers
                    == e.modifiers
        }),
{
    crate::coalesce::law_offered_sample_carries_its_stamp(pending, e);
    let after = spec_offer(pending, e).0;
    let key = spec_coalesce_key(e.payload)->0;
    let i = choose|i: int|
        0 <= i < after.len() && #[trigger] crate::coalesce::in_slot(after[i], e.device_id, e.source, key)
            && after[i].sequence == e.sequence && after[i].timestamp == e.timestamp && after[i].modifiers
            == e.modifiers;
    assert(after[i].modifiers == e.modifiers);
}

/// Modifiers held on any keyboard travel with every pointer, touch and tablet report,
/// whatever its kind: a button, touch or tablet report is delivered last carrying
/// exactly the modifiers held across all keyboards before it, and a relative or absolute
/// motion or a scroll report delivers nothing yet and waits in a sample, numbered with
/// the counter, that carries them. A gamepad report carries no modifier.
pub proof fn law_held_modifiers_travel_with_input<L: KeyboardLayout>(
    layout: L,
    s: ServiceView,
    event: BackendEvent,
    source: InputSource,
    now: Timestamp,
)
    ensures
        ({
            let (t, out) = spec_ingest(layout, s, event, source, now);
            let held = aggregate_modifiers_of(s.keyboard);
            &&& (event is PointerButton || event is Touch || event is Tablet) ==> out.len() > 0
                && out.last().modifiers == held
            &&& (event is MotionRelative || event is MotionAbsolute || event is Scroll) ==> out.len() == 0
                && exists|i: int|
                0 <= i < t.pending.len() && t.pending[i].sequence.0 == s.next_sequence
                    && #[trigger] t.pending[i].modifiers == held
            &&& event is Gamepad ==> out.len() > 0 && !out.last().modifiers.ctrl && !out.last().modifiers.alt
                && !out.last().modifiers.shift && !out.last().modifiers.logo
        }),
{
    let held = aggregate_modifiers_of(s.keyboard);
    let stamp = |payload: InputEventPayload, modifiers: Modifiers, device: InputDeviceId| InputEvent {
        timestamp: now,
        sequence: SequenceNumber(s.next_sequence),
        device_id: device,
        source,
        modifiers,
        payload,
    };
    match event {
        BackendEvent::PointerButton { device_id, button, pressed } => {
            let e = stamp(InputEventPayload::Pointer(PointerEvent::Button { button, pressed }), held, device_id);
            crate::coalesce::law_transition_events_flush_their_device_first(s.pending, e);
        },
        BackendEvent::Touch { device_id, event: te } => {
            let e = stamp(InputEventPayload::Touch(te), held, device_id);
            crate::coalesce::law_transition_events_flush_their_device_first(s.pending, e);
        },
        BackendEvent::Tablet { device_id, event: te } => {
            let e = stamp(InputEventPayload::Tablet(te), held, device_id);
            crate::coalesce::law_transition_events_flush_their_device_first(s.pending, e);
        },
        BackendEvent::Gamepad { device_id, event: ge } => {
            let e = stamp(InputEventPayload::Gamepad(ge), Modifiers::spec_none(), device_id);
            crate::coalesce::law_transition_events_flush_their_device_first(s.pending, e);
        },
        BackendEvent::MotionRelative { device_id, dx, dy } => {
            let e = stamp(InputEventPayload::Pointer(PointerEvent::MotionRelative { dx, dy }), held, device_id);
            lemma_sample_waits_with_its_modifiers(s.pending, e);
            let t = spec_ingest(layout, s, event, source, now).0;
            assert(t.pending == spec_offer(s.pending, e).0);
            let i = choose|i: int|
                0 <= i < t.pending.len() && t.pending[i].sequence.0 == e.sequence.0
                    && #[trigger] t.pending[i].modifiers == e.modifiers;
            assert(t.pending[i].modifiers == held);
        },
        BackendEvent::MotionAbsolute { device_id, position } => {
            let e = stamp(InputEventPayload::Pointer(PointerEvent::MotionAbsolute { position }), held, device_id);
            lemma_sample_waits_with_its_modifiers(s.pending, e);
            let t = spec_ingest(layout, s, event, source, now).0;
            assert(t.pending == spec_offer(s.pending, e).0);
            let i = choose|i: int|
                0 <= i < t.pending.len() && t.pending[i].sequence.0 == e.sequence.0
                    && #[trigger] t.pending[i].modifiers == e.modifiers;
            assert(t.pending[i].modifiers == held);
        },
        BackendEvent::Scroll { device_id, axis, delta, high_resolution } => {
            let e = stamp(
                InputEventPayload::Pointer(PointerEvent::Scroll { axis, delta, high_resolution }),
                held,
                device_id,
            );
            lemma_sample_waits_with_its_modifiers(s.pending, e);
            let t = spec_ingest(layout, s, event, source, now).0;
            assert(t.pending == spec_offer(s.pending, e).0);
            let i = choose|i: int|
                0 <= i < t.pending.len() && t.pending[i].sequence.0 == e.sequence.0
                    && #[trigger] t.pending[i].modifiers == e.modifiers;
            assert(t.pending[i].modifiers == held);
        },
        _ => {},
    }
}

/// Pointer reports keep each pointer's state: absolute motion moves the pointer to the
/// reported position; relative motion moves it by the reported deltas (clamped to
/// `i64`), from the origin for a pointer not seen before; a button press holds the
/// button and its release lets it go, every other button staying as it was; motion
/// keeps the held buttons, a button keeps the position, scrolling changes no pointer,
/// and no report changes the state of another device's pointer.
pub proof fn law_pointer_state_follows_reports<L: KeyboardLayout>(
    layout: L,
    s: ServiceView,
    event: BackendEvent,
    source: InputSource,
    now: Timestamp,
    other: InputDeviceId,
)
    ensures
        ({
            let t = spec_ingest(layout, s, event, source, now).0;
            &&& event matches BackendEvent::MotionAbsolute { device_id, position } ==> t.pointer.contains_key(device_id)
                && t.pointer[device_id].position == position && t.pointer[device_id].buttons == pointer_state_or_initial(
                s.pointer,
                device_id,
            ).buttons
            &&& event matches BackendEvent::MotionRelative { device_id, dx, dy } ==> {
                let p = if s.pointer.contains_key(device_id) {
                    s.pointer[device_id].position
                } else {
                    NormalizedPosition { x: 0, y: 0 }
                };
                let x = p.x + dx;
                let y = p.y + dy;
                &&& t.pointer.contains_key(device_id)
                &&& t.pointer[device_id].position.x == (if x > i64::MAX { i64::MAX as int } else if x < i64::MIN {
                    i64::MIN as int
                } else {
                    x
                })
                &&& t.pointer[device_id].position.y == (if y > i64::MAX { i64::MAX as int } else if y < i64::MIN {
                    i64::MIN as int
                } else {
                    y
                })
                &&& t.pointer[device_id].buttons == pointer_state_or_initial(s.pointer, device_id).buttons
            }
            &&& event matches BackendEvent::PointerButton { device_id, button, pressed } ==> {
                let before = pointer_state_or_initial(s.pointer, device_id);
                &&& t.pointer.contains_key(device_id)
                &&& t.pointer[device_id].buttons.contains(button) == pressed
                &&& forall|b: crate::pointer::PointerButton|
                    b != button ==> (#[trigger] t.pointer[device_id].buttons.contains(b) == before.buttons.contains(b))
                &&& t.pointer[device_id].position == before.position
            }
            &&& event is Scroll ==> t.pointer == s.pointer
            &&& !(event is DeviceRemoved) && !(event matches BackendEvent::MotionAbsolute { device_id, .. }
                && device_id == other) && !(event matches BackendEvent::MotionRelative { device_id, .. }
                && device_id == other) && !(event matches BackendEvent::PointerButton { device_id, .. }
                && device_id == other) ==> t.pointer.contains_key(other) == s.pointer.contains_key(other) && (
            s.pointer.contains_key(other) ==> t.pointer[other] == s.pointer[other])
        }),
{
}

/// A key event carries the modifiers of its own keyboard, counting the key it reports,
/// not those held on other keyboards: Shift held on one keyboard changes what keys
/// typed on that keyboard produce, and nothing typed on another.
pub proof fn law_key_events_carry_their_keyboards_modifiers<L: KeyboardLayout>(
    layout: L,
    s: ServiceView,
    device: InputDeviceId,
    key: PhysicalKey,
    pressed: bool,
    source: InputSource,
    now: Timestamp,
)
    ensures
        ({
            let out = spec_ingest(layout, s, BackendEvent::Key { device_id: device, physical_key: key, pressed }, source, now).1;
            let held = if pressed {
                held_keys(s.keyboard, device).insert(key)
            } else {
                held_keys(s.keyboard, device).remove(key)
            };
            &&& out.len() > 0
            &&& out.last().device_id == device
            &&& out.last().modifiers.ctrl == (held.contains(PhysicalKey::ControlLeft) || held.contains(
                PhysicalKey::ControlRight,
            ))
            &&& out.last().modifiers.alt == (held.contains(PhysicalKey::AltLeft) || held.contains(PhysicalKey::AltRight))
            &&& out.last().modifiers.shift == (held.contains(PhysicalKey::ShiftLeft) || held.contains(
                PhysicalKey::ShiftRight,
            ))
            &&& out.last().modifiers.logo == (held.contains(PhysicalKey::SuperLeft) || held.contains(
                PhysicalKey::SuperRight,
            ))
        }),
{
}

/// With the US QWERTY layout, Shift capitalises on its own keyboard only: after Shift
/// is pressed on one keyboard, `A` pressed there types "A", while `A` pressed on
/// another keyboard that holds no Shift types "a".
pub proof fn law_shift_capitalises_on_its_own_keyboard(
    layout: UsQwertyLayout,
    s: ServiceView,
    keyboard: InputDeviceId,
    other: InputDeviceId,
    source: InputSource,
    t1: Timestamp,
    t2: Timestamp,
)
    requires
        keyboard != other,
        !held_keys(s.keyboard, other).contains(PhysicalKey::ShiftLeft),
        !held_keys(s.keyboard, other).contains(PhysicalKey::ShiftRight),
    ensures
        ({
            let a = spec_ingest(
                layout,
                s,
                BackendEvent::Key { device_id: keyboard, physical_key: PhysicalKey::ShiftLeft, pressed: true },
                source,
                t1,
            ).0;
            let here = spec_ingest(
                layout,
                a,
                BackendEvent::Key { device_id: keyboard, physical_key: PhysicalKey::KeyA, pressed: true },
                source,
                t2,
            ).1;
            let there = spec_ingest(
                layout,
                a,
                BackendEvent::Key { device_id: other, physical_key: PhysicalKey::KeyA, pressed: true },
                source,
                t2,
            ).1;
            &&& here.len() > 0
            &&& here.last().payload matches InputEventPayloadView::Keyboard(k)
                && k.logical_key == LogicalKey::Character('A') && k.text == Some(seq!['A'])
            &&& there.len() > 0
            &&& there.last().payload matches InputEventPayloadView::Keyboard(k)
                && k.logical_key == LogicalKey::Character('a') && k.text == Some(seq!['a'])
        }),
{
    let a = spec_ingest(
        layout,
        s,
        BackendEvent::Key { device_id: keyboard, physical_key: PhysicalKey::ShiftLeft, pressed: true },
        source,
        t1,
    ).0;
    assert(held_keys(a.keyboard, keyboard).contains(PhysicalKey::ShiftLeft));
    assert(held_keys(a.keyboard, other) == held_keys(s.keyboard, other));
}

/// The device of a motion or scroll report, the reports that are coalesced.
pub open spec fn coalesced_report_device(event: BackendEvent) -> Option<InputDeviceId> {
    match event {
        BackendEvent::MotionRelative { device_id, .. } => Some(device_id),
        BackendEvent::MotionAbsolute { device_id, .. } => Some(device_id),
        BackendEvent::Scroll { device_id, .. } => Some(device_id),
        _ => None,
    }
}

/// Synthetic input is only accepted under a grant that covers the event's kind: no
/// grant covers hotplug, tablet or gamepad events, and a keyboard-only grant cannot
/// move or click the pointer. An accepted event that is never coalesced (keys,
/// buttons, touch) is announced tagged with the grant's origin, never as physical.
/// Accepted synthetic motion or scrolling waits in a sample tagged with the grant's
/// origin, and never merges with a sample of another source: every waiting sample of
/// another source is kept as it was, and none is created.
pub proof fn law_synthetic_input_is_scoped_and_tagged<L: KeyboardLayout>(
    layout: L,
    s: ServiceView,
    grant: SyntheticInputGrant,
    event: BackendEvent,
    now: Timestamp,
)
    ensures
        event matches BackendEvent::DeviceAdded(_) ==> !grant_covers(grant, event),
        event matches BackendEvent::DeviceRemoved(_) ==> !grant_covers(grant, event),
        event matches BackendEvent::Tablet { .. } ==> !grant_covers(grant, event),
        event matches BackendEvent::Gamepad { .. } ==> !grant_covers(grant, event),
        !grant.allows_pointer ==> !grant_covers(grant, event) || !(event matches BackendEvent::PointerButton { .. }),
        grant_covers(grant, event) && (event matches BackendEvent::Key { .. } || event matches BackendEvent::PointerButton { .. }
            || event matches BackendEvent::Touch { .. }) ==> ({
            let (_, out) = spec_ingest(layout, s, event, InputSource::Synthetic(grant.origin), now);
            out.len() > 0 && out.last().source == InputSource::Synthetic(grant.origin)
        }),
        grant_covers(grant, event) && coalesced_report_device(event) is Some ==> ({
            let (t, out) = spec_ingest(layout, s, event, InputSource::Synthetic(grant.origin), now);
            let src = InputSource::Synthetic(grant.origin);
            &&& out.len() == 0
            &&& exists|i: int| 0 <= i < t.pending.len() && #[trigger] t.pending[i].device_id == coalesced_report_device(event)->0
                && t.pending[i].source == src
            &&& forall|x: InputEvent| #[trigger] s.pending.contains(x) && x.source != src ==> t.pending.contains(x)
            &&& forall|j: int| 0 <= j < t.pending.len() && #[trigger] t.pending[j].source != src ==> s.pending.contains(t.pending[j])
        }),
{
    let src = InputSource::Synthetic(grant.origin);
    match event {
        BackendEvent::MotionRelative { device_id, dx, dy } => {
            let e = InputEvent {
                timestamp: now,
                sequence: SequenceNumber(s.next_sequence),
                device_id,
                source: src,
                modifiers: aggregate_modifiers_of(s.keyboard),
                payload: InputEventPayload::Pointer(PointerEvent::MotionRelative { dx, dy }),
            };
            crate::coalesce::law_sources_never_share_a_sample(s.pending, e);
        },
        BackendEvent::MotionAbsolute { device_id, position } => {
            let e = InputEvent {
                timestamp: now,
                sequence: SequenceNumber(s.next_sequence),
                device_id,
                source: src,
                modifiers: aggregate_modifiers_of(s.keyboard),
                payload: InputEventPayload::Pointer(PointerEvent::MotionAbsolute { position }),
            };
            crate::coalesce::law_sources_never_share_a_sample(s.pending, e);
        },
        BackendEvent::Scroll { device_id, axis, delta, high_resolution } => {
            let e = InputEvent {
                timestamp: now,
                sequence: SequenceNumber(s.next_sequence),
                device_id,
                source: src,
                modifiers: aggregate_modifiers_of(s.keyboard),
                payload: InputEventPayload::Pointer(PointerEvent::Scroll { axis, delta, high_resolution }),
            };
            crate::coalesce::law_sources_never_share_a_sample(s.pending, e);
        },
        BackendEvent::PointerButton { device_id, button, pressed } => {
            let p = pointer_state_or_initial(s.pointer, device_id);
            let e = InputEvent {
                timestamp: now,
                sequence: SequenceNumber(s.next_sequence),
                device_id,
                source: src,
                modifiers: aggregate_modifiers_of(s.keyboard),
                payload: InputEventPayload::Pointer(PointerEvent::Button { button, pressed }),
            };
            crate::coalesce::law_transition_events_flush_their_device_first(s.pending, e);
        },
        BackendEvent::Touch { device_id, event: te } => {
            let e = InputEvent {
                timestamp: now,
                sequence: SequenceNumber(s.next_sequence),
                device_id,
                source: src,
                modifiers: aggregate_modifiers_of(s.keyboard),
                payload: InputEventPayload::Touch(te),
            };
            crate::coalesce::law_transition_events_flush_their_device_first(s.pending, e);
        },
        _ => {},
    }
}
} // verus!
