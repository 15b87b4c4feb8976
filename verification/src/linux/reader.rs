//! Decoding of one batch of raw evdev events, as a device read returns them, into
//! backend events.

use crate::backend::BackendEvent;
use crate::ids::InputDeviceId;
use crate::linux::keymap::{button_for_code, key_for_code, map_button, map_key};
use crate::pointer::{saturating_add, saturating_sum, ScrollAxis, SCROLL_UNITS_PER_NOTCH};
use vstd::prelude::*;

verus! {

/// `EV_SYN`.
pub const EV_SYN: u16 = 0x00;
/// `EV_KEY`.
pub const EV_KEY: u16 = 0x01;
/// `EV_REL`.
pub const EV_REL: u16 = 0x02;
/// `REL_X`.
pub const REL_X: u16 = 0x00;
/// `REL_Y`.
pub const REL_Y: u16 = 0x01;
/// `REL_HWHEEL`.
pub const REL_HWHEEL: u16 = 0x06;
/// `REL_WHEEL`.
pub const REL_WHEEL: u16 = 0x08;
/// `REL_WHEEL_HI_RES`.
pub const REL_WHEEL_HI_RES: u16 = 0x0b;
/// `REL_HWHEEL_HI_RES`.
pub const REL_HWHEEL_HI_RES: u16 = 0x0c;

/// One raw kernel `input_event`: its type, code and value.
#[derive(Debug, Clone, Copy, PartialEq, Eq, Hash, Structural)]
pub struct RawEvent {
    pub event_type: u16,
    pub code: u16,
    pub value: i32,
}

/// Relative motion read so far in a batch and not yet reported.
#[derive(Debug, Clone, Copy, PartialEq, Eq, Structural)]
pub struct PendingMotion {
    pub dx: i64,
    pub dy: i64,
    pub has_motion: bool,
}

pub open spec fn no_motion() -> PendingMotion {
    PendingMotion { dx: 0, dy: 0, has_motion: false }
}

/// What flushing `m` reports: one relative motion carrying both deltas, if any motion
/// was read.
pub open spec fn flushed(device: InputDeviceId, m: PendingMotion) -> Seq<BackendEvent> {
    if m.has_motion {
        seq![BackendEvent::MotionRelative { device_id: device, dx: m.dx, dy: m.dy }]
    } else {
        Seq::empty()
    }
}

/// A wheel event: low-resolution wheels report whole notches, high-resolution wheels
/// report 1/120 notches; both become deltas in 1/120 notch units.
pub open spec fn wheel_event(device: InputDeviceId, axis: ScrollAxis, value: i32, high_resolution: bool) -> BackendEvent {
    BackendEvent::Scroll {
        device_id: device,
        axis,
        delta: if high_resolution {
            value as i64
        } else {
            (value * SCROLL_UNITS_PER_NOTCH) as i64
        },
        high_resolution,
    }
}

/// The motion state and the events reported after reading `ev`.
/// - `REL_X`/`REL_Y` accumulate into the pending motion and report nothing.
/// - A key event reports the pending motion first, then a pointer button event for a
///   button code or a key event otherwise (pressed when the value is not 0).
/// - A wheel event reports the pending motion first, then the scroll.
/// - `SYN_*` reports the pending motion.
/// - Anything else is ignored.
pub open spec fn translate_step(device: InputDeviceId, m: PendingMotion, ev: RawEvent) -> (PendingMotion, Seq<BackendEvent>) {
    if ev.event_type == EV_KEY {
        let pressed = ev.value != 0;
        let e = match button_for_code(ev.code) {
            Some(button) => BackendEvent::PointerButton { device_id: device, button, pressed },
            None => BackendEvent::Key { device_id: device, physical_key: key_for_code(ev.code), pressed },
        };
        (no_motion(), flushed(device, m).push(e))
    } else if ev.event_type == EV_REL {
        if ev.code == REL_X {
            (PendingMotion { dx: saturating_sum(m.dx, ev.value as i64), dy: m.dy, has_motion: true }, Seq::empty())
        } else if ev.code == REL_Y {
            (PendingMotion { dx: m.dx, dy: saturating_sum(m.dy, ev.value as i64), has_motion: true }, Seq::empty())
        } else if ev.code == REL_WHEEL {
            (no_motion(), flushed(device, m).push(wheel_event(device, ScrollAxis::Vertical, ev.value, false)))
        } else if ev.code == REL_HWHEEL {
            (no_motion(), flushed(device, m).push(wheel_event(device, ScrollAxis::Horizontal, ev.value, false)))
        } else if ev.code == REL_WHEEL_HI_RES {
            (no_motion(), flushed(device, m).push(wheel_event(device, ScrollAxis::Vertical, ev.value, true)))
        } else if ev.code == REL_HWHEEL_HI_RES {
            (no_motion(), flushed(device, m).push(wheel_event(device, ScrollAxis::Horizontal, ev.value, true)))
        } else {
            (m, Seq::empty())
        }
    } else if ev.event_type == EV_SYN {
        (no_motion(), flushed(device, m))
    } else {
        (m, Seq::empty())
    }
}

/// The events reported for `events` read with pending motion `m`; whatever motion is
/// still pending at the end of the batch is reported last.
pub open spec fn translate_from(device: InputDeviceId, m: PendingMotion, events: Seq<RawEvent>) -> Seq<BackendEvent>
    decreases events.len(),
{
    if events.len() == 0 {
        flushed(device, m)
    } else {
        let (m2, out) = translate_step(device, m, events[0]);
        out + translate_from(device, m2, events.drop_first())
    }
}

/// The events reported for one batch.
pub open spec fn spec_translate_batch(device: InputDeviceId, events: Seq<RawEvent>) -> Seq<BackendEvent> {
    translate_from(device, no_motion(), events)
}

impl PendingMotion {
    /// Reports the pending motion, if any, and clears it.
    pub fn flush(&mut self, device: InputDeviceId, out: &mut Vec<BackendEvent>)
        ensures
            *final(self) == (if old(self).has_motion {
                no_motion()
            } else {
                *old(self)
            }),
            final(out)@ == old(out)@ + flushed(device, *old(self)),
    {
        if self.has_motion {
            out.push(BackendEvent::MotionRelative { device_id: device, dx: self.dx, dy: self.dy });
            self.dx = 0;
            self.dy = 0;
            self.has_motion = false;
            proof {
                assert(final(out)@ =~= old(out)@ + flushed(device, *old(self)));
            }
        } else {
            proof {
                assert(final(out)@ =~= old(out)@ + flushed(device, *old(self)));
            }
        }
    }
}

fn wheel(device: InputDeviceId, axis: ScrollAxis, value: i32, high_resolution: bool) -> (e: BackendEvent)
    ensures
        e == wheel_event(device, axis, value, high_resolution),
{
    let delta: i64 = if high_resolution {
        value as i64
    } else {
        (value as i64) * SCROLL_UNITS_PER_NOTCH
    };
    BackendEvent::Scroll { device_id: device, axis, delta, high_resolution }
}

/// Decodes one batch of raw events read from `device`. Relative motion within the
/// batch is accumulated into single motion events; pending motion is reported before
/// every key, button or wheel event and at every `SYN_*` (so a click never overtakes
/// the motion that preceded it) and once more at the end of the batch (so motion is
/// not lost when no `SYN_REPORT` follows).
pub fn translate_batch(device: InputDeviceId, events: &[RawEvent]) -> (out: Vec<BackendEvent>)
    ensures
        out@ == spec_translate_batch(device, events@),
{
    let mut motion = PendingMotion { dx: 0, dy: 0, has_motion: false };
    let mut out: Vec<BackendEvent> = Vec::new();
    let mut i: usize = 0;
    proof {
        assert(events@.skip(0) =~= events@);
        assert(out@ + translate_from(device, motion, events@.skip(0)) =~= translate_from(device, motion, events@));
    }
    while i < events.len()
        invariant
            0 <= i <= events@.len(),
            motion.has_motion || motion == no_motion(),
            out@ + translate_from(device, motion, events@.skip(i as int)) == spec_translate_batch(device, events@),
        decreases events@.len() - i,
    {
        let ev = events[i];
        let ghost before = out@;
        let ghost m0 = motion;
        proof {
            assert(events@.skip(i as int).drop_first() =~= events@.skip(i + 1));
            assert(events@.skip(i as int)[0] == ev);
        }
        if ev.event_type == EV_KEY {
            motion.flush(device, &mut out);
            let pressed = ev.value != 0;
            match map_button(ev.code) {
                Some(button) => out.push(BackendEvent::PointerButton { device_id: device, button, pressed }),
                None => out.push(BackendEvent::Key { device_id: device, physical_key: map_key(ev.code), pressed }),
            }
        } else if ev.event_type == EV_REL {
            if ev.code == REL_X {
                motion.dx = saturating_add(motion.dx, ev.value as i64);
                motion.has_motion = true;
            } else if ev.code == REL_Y {
                motion.dy = saturating_add(motion.dy, ev.value as i64);
                motion.has_motion = true;
            } else if ev.code == REL_WHEEL {
                motion.flush(device, &mut out);
                out.push(wheel(device, ScrollAxis::Vertical, ev.value, false));
            } else if ev.code == REL_HWHEEL {
                motion.flush(device, &mut out);
                out.push(wheel(device, ScrollAxis::Horizontal, ev.value, false));
            } else if ev.code == REL_WHEEL_HI_RES {
                motion.flush(device, &mut out);
                out.push(wheel(device, ScrollAxis::Vertical, ev.value, true));
            } else if ev.code == REL_HWHEEL_HI_RES {
                motion.flush(device, &mut out);
                out.push(wheel(device, ScrollAxis::Horizontal, ev.value, true));
            }
        } else if ev.event_type == EV_SYN {
            motion.flush(device, &mut out);
        }
        proof {
            let (m2, step_out) = translate_step(device, m0, ev);
            assert(motion == m2);
            assert(out@ =~= before + step_out);
            assert(before + translate_from(device, m0, events@.skip(i as int))
                =~= before + (step_out + translate_from(device, m2, events@.skip(i + 1))));
        }
        i = i + 1;
    }
    let ghost before = out@;
    motion.flush(device, &mut out);
    proof {
        assert(events@.skip(i as int) =~= Seq::<RawEvent>::empty());
    }
    out
}

/// Pending motion is always reported before a key, button or wheel event read after
/// it, and that event follows it directly.
pub proof fn law_motion_precedes_later_events(device: InputDeviceId, m: PendingMotion, ev: RawEvent)
    requires
        ev.event_type == EV_KEY || (ev.event_type == EV_REL && (ev.code == REL_WHEEL || ev.code == REL_HWHEEL
            || ev.code == REL_WHEEL_HI_RES || ev.code == REL_HWHEEL_HI_RES)),
    ensures
        ({
            let (m2, out) = translate_step(device, m, ev);
            &&& out.drop_last() == flushed(device, m)
            &&& out.len() == flushed(device, m).len() + 1
            &&& m2 == no_motion()
        }),
{
    let (m2, out) = translate_step(device, m, ev);
    assert(out.drop_last() =~= flushed(device, m));
}

/// Motion still pending when a batch ends is reported, not dropped.
pub proof fn law_trailing_motion_is_reported(device: InputDeviceId, m: PendingMotion)
    ensures
        translate_from(device, m, Seq::empty()) == flushed(device, m),
        m.has_motion ==> translate_from(device, m, Seq::empty()).len() == 1,
{
}

/// Relative axes accumulate: reading the kernel's `REL_X` (0x00) or `REL_Y` (0x01) of
/// type `EV_REL` (0x02) adds its value to the pending delta (clamped to `i64`) and
/// reports nothing yet.
pub proof fn law_relative_axes_accumulate(device: InputDeviceId, m: PendingMotion, value: i32)
    ensures
        translate_step(device, m, RawEvent { event_type: 0x02, code: 0x00, value }) == (
            PendingMotion { dx: saturating_sum(m.dx, value as i64), dy: m.dy, has_motion: true },
            Seq::<BackendEvent>::empty(),
        ),
        translate_step(device, m, RawEvent { event_type: 0x02, code: 0x01, value }) == (
            PendingMotion { dx: m.dx, dy: saturating_sum(m.dy, value as i64), has_motion: true },
            Seq::<BackendEvent>::empty(),
        ),
{
}

/// Wheels scroll on their own axis, in 1/120-notch units, after any pending motion:
/// the kernel's `REL_WHEEL` (0x08) and `REL_WHEEL_HI_RES` (0x0b) scroll vertically,
/// `REL_HWHEEL` (0x06) and `REL_HWHEEL_HI_RES` (0x0c) horizontally; a low-resolution
/// value counts whole notches of 120 units, a high-resolution value counts units.
pub proof fn law_wheels_scroll_on_their_own_axis(device: InputDeviceId, m: PendingMotion, value: i32)
    ensures
        ({
            let (m2, out) = translate_step(device, m, RawEvent { event_type: 0x02, code: 0x08, value });
            &&& m2 == no_motion() && out.drop_last() == flushed(device, m)
            &&& out.last() matches BackendEvent::Scroll { device_id, axis, delta, high_resolution }
                && device_id == device && axis == ScrollAxis::Vertical && delta == value * 120 && !high_resolution
        }),
        ({
            let (m2, out) = translate_step(device, m, RawEvent { event_type: 0x02, code: 0x06, value });
            &&& m2 == no_motion() && out.drop_last() == flushed(device, m)
            &&& out.last() matches BackendEvent::Scroll { device_id, axis, delta, high_resolution }
                && device_id == device && axis == ScrollAxis::Horizontal && delta == value * 120 && !high_resolution
        }),
        ({
            let (m2, out) = translate_step(device, m, RawEvent { event_type: 0x02, code: 0x0b, value });
            &&& m2 == no_motion() && out.drop_last() == flushed(device, m)
            &&& out.last() matches BackendEvent::Scroll { device_id, axis, delta, high_resolution }
                && device_id == device && axis == ScrollAxis::Vertical && delta == value && high_resolution
        }),
        ({
            let (m2, out) = translate_step(device, m, RawEvent { event_type: 0x02, code: 0x0c, value });
            &&& m2 == no_motion() && out.drop_last() == flushed(device, m)
            &&& out.last() matches BackendEvent::Scroll { device_id, axis, delta, high_resolution }
                && device_id == device && axis == ScrollAxis::Horizontal && delta == value && high_resolution
        }),
{
    assert(flushed(device, m).push(wheel_event(device, ScrollAxis::Vertical, value, false)).drop_last()
        =~= flushed(device, m));
    assert(flushed(device, m).push(wheel_event(device, ScrollAxis::Horizontal, value, false)).drop_last()
        =~= flushed(device, m));
    assert(flushed(device, m).push(wheel_event(device, ScrollAxis::Vertical, value, true)).drop_last()
        =~= flushed(device, m));
    assert(flushed(device, m).push(wheel_event(device, ScrollAxis::Horizontal, value, true)).drop_last()
        =~= flushed(device, m));
}

/// A key event (the kernel's `EV_KEY`, 0x01) is a press exactly when its value is not
/// 0: 1 (press) and 2 (the kernel's autorepeat of a held key) both report a press, 0
/// reports a release; the report is a button for codes in the mouse-button range and a
/// key otherwise, and it comes right after any pending motion. A batch of that one
/// event reports just it.
pub proof fn law_key_values_decode_press_and_release(device: InputDeviceId, m: PendingMotion, code: u16, value: i32)
    ensures
        ({
            let (m2, out) = translate_step(device, m, RawEvent { event_type: 0x01, code, value });
            &&& out.len() >= 1
            &&& m2 == no_motion()
            &&& match out.last() {
                BackendEvent::Key { device_id, pressed, .. } => device_id == device && pressed == (value != 0)
                    && !(0x100 <= code < 0x120),
                BackendEvent::PointerButton { device_id, pressed, .. } => device_id == device && pressed == (value
                    != 0) && 0x100 <= code < 0x120,
                _ => false,
            }
        }),
        ({
            let out = spec_translate_batch(device, seq![RawEvent { event_type: 0x01, code, value }]);
            &&& out.len() == 1
            &&& match out[0] {
                BackendEvent::Key { pressed, .. } => pressed == (value != 0),
                BackendEvent::PointerButton { pressed, .. } => pressed == (value != 0),
                _ => false,
            }
        }),
{
    let ev = RawEvent { event_type: 0x01, code, value };
    let (m2, out) = translate_step(device, no_motion(), ev);
    assert(seq![ev].drop_first() =~= Seq::<RawEvent>::empty());
    assert(flushed(device, no_motion()) =~= Seq::<BackendEvent>::empty());
    assert(out =~= seq![out.last()]);
    assert(translate_from(device, m2, Seq::<RawEvent>::empty()) == flushed(device, m2));
    assert(seq![ev][0] == ev);
    assert(translate_from(device, no_motion(), seq![ev]) == out + translate_from(device, m2, seq![ev].drop_first()));
    assert(spec_translate_batch(device, seq![ev]) =~= out + flushed(device, m2));
}

} // verus!
