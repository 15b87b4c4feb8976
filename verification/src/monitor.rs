//! What the event monitor shows besides the events themselves: modifier labels, short
//! device ids, delivery latency, and the scripted demo it replays without hardware.

use crate::backend::BackendEvent;
use crate::device::{ConnectionState, InputDeviceCapabilities, InputDeviceClass};
use crate::event::InputEvent;
use crate::ids::{hex_digit, is_uuid_v4, nibble, uuid_text, InputDeviceId, Timestamp};
use crate::keyboard::{Modifiers, PhysicalKey};
use crate::pointer::PointerButton;
use crate::simulated::{keyboard_device, mouse_device};
use vstd::prelude::*;

verus! {

/// `acc` with `part` appended, `+`-separated unless `acc` is still empty.
pub open spec fn join_part(acc: Seq<char>, part: Seq<char>) -> Seq<char> {
    if acc.len() == 0 {
        part
    } else {
        acc + "+"@ + part
    }
}

/// The label of a modifier set: the held modifiers among `ctrl`, `alt`, `shift` and
/// `super`, in that order and joined by `+`, or `none` when nothing is held.
pub open spec fn modifiers_text(m: Modifiers) -> Seq<char> {
    let a = if m.ctrl {
        "ctrl"@
    } else {
        Seq::empty()
    };
    let b = if m.alt {
        join_part(a, "alt"@)
    } else {
        a
    };
    let c = if m.shift {
        join_part(b, "shift"@)
    } else {
        b
    };
    let d = if m.logo {
        join_part(c, "super"@)
    } else {
        c
    };
    if d.len() == 0 {
        "none"@
    } else {
        d
    }
}

fn push_part(acc: &mut String, part: &str)
    ensures
        final(acc)@ == join_part(old(acc)@, part@),
{
    if !acc.as_str().is_empty() {
        acc.append("+");
    }
    acc.append(part);
}

/// The label of the modifiers an event was delivered with.
pub fn fmt_modifiers(event: &InputEvent) -> (s: String)
    ensures
        s@ == modifiers_text(event.modifiers),
{
    proof {
        reveal_strlit("ctrl");
        reveal_strlit("alt");
        reveal_strlit("shift");
        reveal_strlit("super");
        reveal_strlit("none");
        reveal_strlit("+");
    }
    let m = event.modifiers;
    let mut s = String::new();
    if m.ctrl {
        push_part(&mut s, "ctrl");
    }
    if m.alt {
        push_part(&mut s, "alt");
    }
    if m.shift {
        push_part(&mut s, "shift");
    }
    if m.logo {
        push_part(&mut s, "super");
    }
    if s.as_str().is_empty() {
        String::from_str("none")
    } else {
        s
    }
}

proof fn lemma_uuid_text_is_ascii(v: u128)
    ensures
        vstd::utf8::is_ascii_chars(uuid_text(v)),
{
    assert forall|p: int| 0 <= p < uuid_text(v).len() implies '\0' <= #[trigger] uuid_text(v)[p] <= '\u{7f}' by {
        if !(p == 8 || p == 13 || p == 18 || p == 23) {
            let n = nibble(v, crate::ids::uuid_digit_index(p) as nat);
            assert(n < 16);
            assert(hex_digit(n) as int <= 102);
        }
    }
}

/// The first eight characters of the device id's text: enough to tell devices apart
/// on screen.
pub fn short_id(id: InputDeviceId) -> (s: String)
    ensures
        s@ == uuid_text(id.0).take(8),
{
    let full = id.to_string();
    proof {
        lemma_uuid_text_is_ascii(id.0);
    }
    let head = full.as_str().substring_ascii(0, 8);
    String::from_str(head)
}

/// Whole microseconds from `then` to `now`; 0 when `then` is later.
pub open spec fn micros_between(now: Timestamp, then: Timestamp) -> u64 {
    if now.0 >= then.0 {
        ((now.0 - then.0) / 1000) as u64
    } else {
        0
    }
}

/// How long after `then` the moment `now` is, in whole microseconds.
pub fn latency_between(now: Timestamp, then: Timestamp) -> (us: u64)
    ensures
        us == micros_between(now, then),
{
    now.as_nanos().saturating_sub(then.as_nanos()) / 1000
}

/// How long ago `timestamp` was, in whole microseconds, by the wall clock.
pub fn latency_since(timestamp: Timestamp) -> (us: u64)
    ensures
        exists|now: Timestamp| us == #[trigger] micros_between(now, timestamp),
{
    let now = Timestamp::now();
    latency_between(now, timestamp)
}

/// The input part of the demo: `h` and `i` typed on the keyboard, then a mouse
/// nudge and a left click, each with the delay (in milliseconds) before it.
pub open spec fn demo_input(keyboard: InputDeviceId, mouse: InputDeviceId) -> Seq<(u64, BackendEvent)> {
    seq![
        (400u64, BackendEvent::Key { device_id: keyboard, physical_key: PhysicalKey::KeyH, pressed: true }),
        (80u64, BackendEvent::Key { device_id: keyboard, physical_key: PhysicalKey::KeyH, pressed: false }),
        (400u64, BackendEvent::Key { device_id: keyboard, physical_key: PhysicalKey::KeyI, pressed: true }),
        (80u64, BackendEvent::Key { device_id: keyboard, physical_key: PhysicalKey::KeyI, pressed: false }),
        (600u64, BackendEvent::MotionRelative { device_id: mouse, dx: 12i64, dy: -4i64 }),
        (150u64, BackendEvent::PointerButton { device_id: mouse, button: PointerButton::Left, pressed: true }),
        (80u64, BackendEvent::PointerButton { device_id: mouse, button: PointerButton::Left, pressed: false }),
    ]
}

/// The scripted demo replayed when no hardware backend runs: a simulated keyboard and
/// mouse are plugged in (200 ms apart), then [`demo_input`] follows on them. Each entry
/// is the delay in milliseconds before the event.
pub fn demo_script() -> (script: Vec<(u64, BackendEvent)>)
    ensures
        script@.len() == 9,
        script@[0].0 == 200 && script@[1].0 == 200,
        script@[0].1 matches BackendEvent::DeviceAdded(k) && k.name@ == "Demo Keyboard"@
            && k.class == InputDeviceClass::Keyboard
            && k.capabilities == (InputDeviceCapabilities { keys: true, ..InputDeviceCapabilities::spec_empty() })
            && k.connection_state == ConnectionState::Connected,
        script@[1].1 matches BackendEvent::DeviceAdded(m) && m.name@ == "Demo Mouse"@
            && m.class == InputDeviceClass::Pointer
            && m.capabilities == (InputDeviceCapabilities {
                pointer_relative: true,
                scroll: true,
                ..InputDeviceCapabilities::spec_empty()
            })
            && m.connection_state == ConnectionState::Connected,
        script@[0].1 matches BackendEvent::DeviceAdded(k) && script@[1].1 matches BackendEvent::DeviceAdded(m)
            && script@.skip(2) == demo_input(k.id, m.id) && is_uuid_v4(k.id.0) && is_uuid_v4(m.id.0),
{
    let keyboard = keyboard_device("Demo Keyboard");
    let mouse = mouse_device("Demo Mouse");
    let kb_id = keyboard.id;
    let mouse_id = mouse.id;
    let mut script: Vec<(u64, BackendEvent)> = Vec::new();
    script.push((200, BackendEvent::DeviceAdded(keyboard)));
    script.push((200, BackendEvent::DeviceAdded(mouse)));
    script.push((400, BackendEvent::Key { device_id: kb_id, physical_key: PhysicalKey::KeyH, pressed: true }));
    script.push((80, BackendEvent::Key { device_id: kb_id, physical_key: PhysicalKey::KeyH, pressed: false }));
    script.push((400, BackendEvent::Key { device_id: kb_id, physical_key: PhysicalKey::KeyI, pressed: true }));
    script.push((80, BackendEvent::Key { device_id: kb_id, physical_key: PhysicalKey::KeyI, pressed: false }));
    script.push((600, BackendEvent::MotionRelative { device_id: mouse_id, dx: 12, dy: -4 }));
    script.push(
        (150, BackendEvent::PointerButton { device_id: mouse_id, button: PointerButton::Left, pressed: true }),
    );
    script.push(
        (80, BackendEvent::PointerButton { device_id: mouse_id, button: PointerButton::Left, pressed: false }),
    );
    proof {
        assert(script@.skip(2) =~= demo_input(kb_id, mouse_id));
    }
    script
}

} // verus!
