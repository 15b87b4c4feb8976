//! Linux evdev key codes (`<linux/input-event-codes.h>`, as the `evdev` crate names
//! them) mapped to SHER-Input [`PhysicalKey`] and [`PointerButton`] values. This
//! is the only place where Linux codes are given meaning.

use crate::keyboard::PhysicalKey;
use crate::pointer::PointerButton;
use vstd::prelude::*;

verus! {

/// Kernel key codes, as `<linux/input-event-codes.h>` names them.
pub const KEY_A: u16 = 30;
pub const KEY_B: u16 = 48;
pub const KEY_C: u16 = 46;
pub const KEY_D: u16 = 32;
pub const KEY_E: u16 = 18;
pub const KEY_F: u16 = 33;
pub const KEY_G: u16 = 34;
pub const KEY_H: u16 = 35;
pub const KEY_I: u16 = 23;
pub const KEY_J: u16 = 36;
pub const KEY_K: u16 = 37;
pub const KEY_L: u16 = 38;
pub const KEY_M: u16 = 50;
pub const KEY_N: u16 = 49;
pub const KEY_O: u16 = 24;
pub const KEY_P: u16 = 25;
pub const KEY_Q: u16 = 16;
pub const KEY_R: u16 = 19;
pub const KEY_S: u16 = 31;
pub const KEY_T: u16 = 20;
pub const KEY_U: u16 = 22;
pub const KEY_V: u16 = 47;
pub const KEY_W: u16 = 17;
pub const KEY_X: u16 = 45;
pub const KEY_Y: u16 = 21;
pub const KEY_Z: u16 = 44;
pub const KEY_0: u16 = 11;
pub const KEY_1: u16 = 2;
pub const KEY_2: u16 = 3;
pub const KEY_3: u16 = 4;
pub const KEY_4: u16 = 5;
pub const KEY_5: u16 = 6;
pub const KEY_6: u16 = 7;
pub const KEY_7: u16 = 8;
pub const KEY_8: u16 = 9;
pub const KEY_9: u16 = 10;
pub const KEY_ENTER: u16 = 28;
pub const KEY_ESC: u16 = 1;
pub const KEY_BACKSPACE: u16 = 14;
pub const KEY_TAB: u16 = 15;
pub const KEY_SPACE: u16 = 57;
pub const KEY_MINUS: u16 = 12;
pub const KEY_EQUAL: u16 = 13;
pub const KEY_LEFTBRACE: u16 = 26;
pub const KEY_RIGHTBRACE: u16 = 27;
pub const KEY_BACKSLASH: u16 = 43;
pub const KEY_SEMICOLON: u16 = 39;
pub const KEY_APOSTROPHE: u16 = 40;
pub const KEY_GRAVE: u16 = 41;
pub const KEY_COMMA: u16 = 51;
pub const KEY_DOT: u16 = 52;
pub const KEY_SLASH: u16 = 53;
pub const KEY_CAPSLOCK: u16 = 58;
pub const KEY_SCROLLLOCK: u16 = 70;
pub const KEY_NUMLOCK: u16 = 69;
pub const KEY_F1: u16 = 59;
pub const KEY_F2: u16 = 60;
pub const KEY_F3: u16 = 61;
pub const KEY_F4: u16 = 62;
pub const KEY_F5: u16 = 63;
pub const KEY_F6: u16 = 64;
pub const KEY_F7: u16 = 65;
pub const KEY_F8: u16 = 66;
pub const KEY_F9: u16 = 67;
pub const KEY_F10: u16 = 68;
pub const KEY_F11: u16 = 87;
pub const KEY_F12: u16 = 88;
pub const KEY_SYSRQ: u16 = 99;
pub const KEY_PAUSE: u16 = 119;
pub const KEY_INSERT: u16 = 110;
pub const KEY_HOME: u16 = 102;
pub const KEY_PAGEUP: u16 = 104;
pub const KEY_DELETE: u16 = 111;
pub const KEY_END: u16 = 107;
pub const KEY_PAGEDOWN: u16 = 109;
pub const KEY_RIGHT: u16 = 106;
pub const KEY_LEFT: u16 = 105;
pub const KEY_DOWN: u16 = 108;
pub const KEY_UP: u16 = 103;
pub const KEY_LEFTCTRL: u16 = 29;
pub const KEY_LEFTSHIFT: u16 = 42;
pub const KEY_LEFTALT: u16 = 56;
pub const KEY_LEFTMETA: u16 = 125;
pub const KEY_RIGHTCTRL: u16 = 97;
pub const KEY_RIGHTSHIFT: u16 = 54;
pub const KEY_RIGHTALT: u16 = 100;
pub const KEY_RIGHTMETA: u16 = 126;
pub const KEY_PLAYPAUSE: u16 = 164;
pub const KEY_NEXTSONG: u16 = 163;
pub const KEY_PREVIOUSSONG: u16 = 165;
pub const KEY_VOLUMEUP: u16 = 115;
pub const KEY_VOLUMEDOWN: u16 = 114;
pub const KEY_MUTE: u16 = 113;
pub const KEY_COMPOSE: u16 = 127;

/// The physical key of an evdev key code: the named keys of the table below, and
/// `Other(code)` for every other code.
pub open spec fn key_for_code(code: u16) -> PhysicalKey {
    match code {
        30 => PhysicalKey::KeyA,
        48 => PhysicalKey::KeyB,
        46 => PhysicalKey::KeyC,
        32 => PhysicalKey::KeyD,
        18 => PhysicalKey::KeyE,
        33 => PhysicalKey::KeyF,
        34 => PhysicalKey::KeyG,
        35 => PhysicalKey::KeyH,
        23 => PhysicalKey::KeyI,
        36 => PhysicalKey::KeyJ,
        37 => PhysicalKey::KeyK,
        38 => PhysicalKey::KeyL,
        50 => PhysicalKey::KeyM,
        49 => PhysicalKey::KeyN,
        24 => PhysicalKey::KeyO,
        25 => PhysicalKey::KeyP,
        16 => PhysicalKey::KeyQ,
        19 => PhysicalKey::KeyR,
        31 => PhysicalKey::KeyS,
        20 => PhysicalKey::KeyT,
        22 => PhysicalKey::KeyU,
        47 => PhysicalKey::KeyV,
        17 => PhysicalKey::KeyW,
        45 => PhysicalKey::KeyX,
        21 => PhysicalKey::KeyY,
        44 => PhysicalKey::KeyZ,
        11 => PhysicalKey::Digit0,
        2 => PhysicalKey::Digit1,
        3 => PhysicalKey::Digit2,
        4 => PhysicalKey::Digit3,
        5 => PhysicalKey::Digit4,
        6 => PhysicalKey::Digit5,
        7 => PhysicalKey::Digit6,
        8 => PhysicalKey::Digit7,
        9 => PhysicalKey::Digit8,
        10 => PhysicalKey::Digit9,
        28 => PhysicalKey::Enter,
        1 => PhysicalKey::Escape,
        14 => PhysicalKey::Backspace,
        15 => PhysicalKey::Tab,
        57 => PhysicalKey::Space,
        12 => PhysicalKey::Minus,
        13 => PhysicalKey::Equal,
        26 => PhysicalKey::BracketLeft,
        27 => PhysicalKey::BracketRight,
        43 => PhysicalKey::Backslash,
        39 => PhysicalKey::Semicolon,
        40 => PhysicalKey::Quote,
        41 => PhysicalKey::Grave,
        51 => PhysicalKey::Comma,
        52 => PhysicalKey::Period,
        53 => PhysicalKey::Slash,
        58 => PhysicalKey::CapsLock,
        70 => PhysicalKey::ScrollLock,
        69 => PhysicalKey::NumLock,
        59 => PhysicalKey::F1,
        60 => PhysicalKey::F2,
        61 => PhysicalKey::F3,
        62 => PhysicalKey::F4,
        63 => PhysicalKey::F5,
        64 => PhysicalKey::F6,
        65 => PhysicalKey::F7,
        66 => PhysicalKey::F8,
        67 => PhysicalKey::F9,
        68 => PhysicalKey::F10,
        87 => PhysicalKey::F11,
        88 => PhysicalKey::F12,
        99 => PhysicalKey::PrintScreen,
        119 => PhysicalKey::Pause,
        110 => PhysicalKey::Insert,
        102 => PhysicalKey::Home,
        104 => PhysicalKey::PageUp,
        111 => PhysicalKey::Delete,
        107 => PhysicalKey::End,
        109 => PhysicalKey::PageDown,
        106 => PhysicalKey::ArrowRight,
        105 => PhysicalKey::ArrowLeft,
        108 => PhysicalKey::ArrowDown,
        103 => PhysicalKey::ArrowUp,
        29 => PhysicalKey::ControlLeft,
        42 => PhysicalKey::ShiftLeft,
        56 => PhysicalKey::AltLeft,
        125 => PhysicalKey::SuperLeft,
        97 => PhysicalKey::ControlRight,
        54 => PhysicalKey::ShiftRight,
        100 => PhysicalKey::AltRight,
        126 => PhysicalKey::SuperRight,
        164 => PhysicalKey::MediaPlayPause,
        163 => PhysicalKey::MediaNextTrack,
        165 => PhysicalKey::MediaPrevTrack,
        115 => PhysicalKey::MediaVolumeUp,
        114 => PhysicalKey::MediaVolumeDown,
        113 => PhysicalKey::MediaMute,
        127 => PhysicalKey::Compose,
        _ => PhysicalKey::Other(code as u32),
    }
}

/// Maps an evdev key code to a physical key; a code without a named variant
/// becomes `Other` carrying the raw code, never a different key.
pub fn map_key(code: u16) -> (k: PhysicalKey)
    ensures
        k == key_for_code(code),
{
    match code {
        30 => PhysicalKey::KeyA,
        48 => PhysicalKey::KeyB,
        46 => PhysicalKey::KeyC,
        32 => PhysicalKey::KeyD,
        18 => PhysicalKey::KeyE,
        33 => PhysicalKey::KeyF,
        34 => PhysicalKey::KeyG,
        35 => PhysicalKey::KeyH,
        23 => PhysicalKey::KeyI,
        36 => PhysicalKey::KeyJ,
        37 => PhysicalKey::KeyK,
        38 => PhysicalKey::KeyL,
        50 => PhysicalKey::KeyM,
        49 => PhysicalKey::KeyN,
        24 => PhysicalKey::KeyO,
        25 => PhysicalKey::KeyP,
        16 => PhysicalKey::KeyQ,
        19 => PhysicalKey::KeyR,
        31 => PhysicalKey::KeyS,
        20 => PhysicalKey::KeyT,
        22 => PhysicalKey::KeyU,
        47 => PhysicalKey::KeyV,
        17 => PhysicalKey::KeyW,
        45 => PhysicalKey::KeyX,
        21 => PhysicalKey::KeyY,
        44 => PhysicalKey::KeyZ,
        11 => PhysicalKey::Digit0,
        2 => PhysicalKey::Digit1,
        3 => PhysicalKey::Digit2,
        4 => PhysicalKey::Digit3,
        5 => PhysicalKey::Digit4,
        6 => PhysicalKey::Digit5,
        7 => PhysicalKey::Digit6,
        8 => PhysicalKey::Digit7,
        9 => PhysicalKey::Digit8,
        10 => PhysicalKey::Digit9,
        28 => PhysicalKey::Enter,
        1 => PhysicalKey::Escape,
        14 => PhysicalKey::Backspace,
        15 => PhysicalKey::Tab,
        57 => PhysicalKey::Space,
        12 => PhysicalKey::Minus,
        13 => PhysicalKey::Equal,
        26 => PhysicalKey::BracketLeft,
        27 => PhysicalKey::BracketRight,
        43 => PhysicalKey::Backslash,
        39 => PhysicalKey::Semicolon,
        40 => PhysicalKey::Quote,
        41 => PhysicalKey::Grave,
        51 => PhysicalKey::Comma,
        52 => PhysicalKey::Period,
        53 => PhysicalKey::Slash,
        58 => PhysicalKey::CapsLock,
        70 => PhysicalKey::ScrollLock,
        69 => PhysicalKey::NumLock,
        59 => PhysicalKey::F1,
        60 => PhysicalKey::F2,
        61 => PhysicalKey::F3,
        62 => PhysicalKey::F4,
        63 => PhysicalKey::F5,
        64 => PhysicalKey::F6,
        65 => PhysicalKey::F7,
        66 => PhysicalKey::F8,
        67 => PhysicalKey::F9,
        68 => PhysicalKey::F10,
        87 => PhysicalKey::F11,
        88 => PhysicalKey::F12,
        99 => PhysicalKey::PrintScreen,
        119 => PhysicalKey::Pause,
        110 => PhysicalKey::Insert,
        102 => PhysicalKey::Home,
        104 => PhysicalKey::PageUp,
        111 => PhysicalKey::Delete,
        107 => PhysicalKey::End,
        109 => PhysicalKey::PageDown,
        106 => PhysicalKey::ArrowRight,
        105 => PhysicalKey::ArrowLeft,
        108 => PhysicalKey::ArrowDown,
        103 => PhysicalKey::ArrowUp,
        29 => PhysicalKey::ControlLeft,
        42 => PhysicalKey::ShiftLeft,
        56 => PhysicalKey::AltLeft,
        125 => PhysicalKey::SuperLeft,
        97 => PhysicalKey::ControlRight,
        54 => PhysicalKey::ShiftRight,
        100 => PhysicalKey::AltRight,
        126 => PhysicalKey::SuperRight,
        164 => PhysicalKey::MediaPlayPause,
        163 => PhysicalKey::MediaNextTrack,
        165 => PhysicalKey::MediaPrevTrack,
        115 => PhysicalKey::MediaVolumeUp,
        114 => PhysicalKey::MediaVolumeDown,
        113 => PhysicalKey::MediaMute,
        127 => PhysicalKey::Compose,
        _ => PhysicalKey::Other(code as u32),
    }
}

/// Every named key has the kernel's code for it: the evdev key `KEY_X` is the physical
/// key X, for each key the map names, so no two keys are ever swapped.
pub proof fn law_named_keys_have_their_kernel_codes()
    ensures
        key_for_code(KEY_A) == PhysicalKey::KeyA,
        key_for_code(KEY_B) == PhysicalKey::KeyB,
        key_for_code(KEY_C) == PhysicalKey::KeyC,
        key_for_code(KEY_D) == PhysicalKey::KeyD,
        key_for_code(KEY_E) == PhysicalKey::KeyE,
        key_for_code(KEY_F) == PhysicalKey::KeyF,
        key_for_code(KEY_G) == PhysicalKey::KeyG,
        key_for_code(KEY_H) == PhysicalKey::KeyH,
        key_for_code(KEY_I) == PhysicalKey::KeyI,
        key_for_code(KEY_J) == PhysicalKey::KeyJ,
        key_for_code(KEY_K) == PhysicalKey::KeyK,
        key_for_code(KEY_L) == PhysicalKey::KeyL,
        key_for_code(KEY_M) == PhysicalKey::KeyM,
        key_for_code(KEY_N) == PhysicalKey::KeyN,
        key_for_code(KEY_O) == PhysicalKey::KeyO,
        key_for_code(KEY_P) == PhysicalKey::KeyP,
        key_for_code(KEY_Q) == PhysicalKey::KeyQ,
        key_for_code(KEY_R) == PhysicalKey::KeyR,
        key_for_code(KEY_S) == PhysicalKey::KeyS,
        key_for_code(KEY_T) == PhysicalKey::KeyT,
        key_for_code(KEY_U) == PhysicalKey::KeyU,
        key_for_code(KEY_V) == PhysicalKey::KeyV,
        key_for_code(KEY_W) == PhysicalKey::KeyW,
        key_for_code(KEY_X) == PhysicalKey::KeyX,
        key_for_code(KEY_Y) == PhysicalKey::KeyY,
        key_for_code(KEY_Z) == PhysicalKey::KeyZ,
        key_for_code(KEY_0) == PhysicalKey::Digit0,
        key_for_code(KEY_1) == PhysicalKey::Digit1,
        key_for_code(KEY_2) == PhysicalKey::Digit2,
        key_for_code(KEY_3) == PhysicalKey::Digit3,
        key_for_code(KEY_4) == PhysicalKey::Digit4,
        key_for_code(KEY_5) == PhysicalKey::Digit5,
        key_for_code(KEY_6) == PhysicalKey::Digit6,
        key_for_code(KEY_7) == PhysicalKey::Digit7,
        key_for_code(KEY_8) == PhysicalKey::Digit8,
        key_for_code(KEY_9) == PhysicalKey::Digit9,
        key_for_code(KEY_ENTER) == PhysicalKey::Enter,
        key_for_code(KEY_ESC) == PhysicalKey::Escape,
        key_for_code(KEY_BACKSPACE) == PhysicalKey::Backspace,
        key_for_code(KEY_TAB) == PhysicalKey::Tab,
        key_for_code(KEY_SPACE) == PhysicalKey::Space,
        key_for_code(KEY_MINUS) == PhysicalKey::Minus,
        key_for_code(KEY_EQUAL) == PhysicalKey::Equal,
        key_for_code(KEY_LEFTBRACE) == PhysicalKey::BracketLeft,
        key_for_code(KEY_RIGHTBRACE) == PhysicalKey::BracketRight,
        key_for_code(KEY_BACKSLASH) == PhysicalKey::Backslash,
        key_for_code(KEY_SEMICOLON) == PhysicalKey::Semicolon,
        key_for_code(KEY_APOSTROPHE) == PhysicalKey::Quote,
        key_for_code(KEY_GRAVE) == PhysicalKey::Grave,
        key_for_code(KEY_COMMA) == PhysicalKey::Comma,
        key_for_code(KEY_DOT) == PhysicalKey::Period,
        key_for_code(KEY_SLASH) == PhysicalKey::Slash,
        key_for_code(KEY_CAPSLOCK) == PhysicalKey::CapsLock,
        key_for_code(KEY_SCROLLLOCK) == PhysicalKey::ScrollLock,
        key_for_code(KEY_NUMLOCK) == PhysicalKey::NumLock,
        key_for_code(KEY_F1) == PhysicalKey::F1,
        key_for_code(KEY_F2) == PhysicalKey::F2,
        key_for_code(KEY_F3) == PhysicalKey::F3,
        key_for_code(KEY_F4) == PhysicalKey::F4,
        key_for_code(KEY_F5) == PhysicalKey::F5,
        key_for_code(KEY_F6) == PhysicalKey::F6,
        key_for_code(KEY_F7) == PhysicalKey::F7,
        key_for_code(KEY_F8) == PhysicalKey::F8,
        key_for_code(KEY_F9) == PhysicalKey::F9,
        key_for_code(KEY_F10) == PhysicalKey::F10,
        key_for_code(KEY_F11) == PhysicalKey::F11,
        key_for_code(KEY_F12) == PhysicalKey::F12,
        key_for_code(KEY_SYSRQ) == PhysicalKey::PrintScreen,
        key_for_code(KEY_PAUSE) == PhysicalKey::Pause,
        key_for_code(KEY_INSERT) == PhysicalKey::Insert,
        key_for_code(KEY_HOME) == PhysicalKey::Home,
        key_for_code(KEY_PAGEUP) == PhysicalKey::PageUp,
        key_for_code(KEY_DELETE) == PhysicalKey::Delete,
        key_for_code(KEY_END) == PhysicalKey::End,
        key_for_code(KEY_PAGEDOWN) == PhysicalKey::PageDown,
        key_for_code(KEY_RIGHT) == PhysicalKey::ArrowRight,
        key_for_code(KEY_LEFT) == PhysicalKey::ArrowLeft,
        key_for_code(KEY_DOWN) == PhysicalKey::ArrowDown,
        key_for_code(KEY_UP) == PhysicalKey::ArrowUp,
        key_for_code(KEY_LEFTCTRL) == PhysicalKey::ControlLeft,
        key_for_code(KEY_LEFTSHIFT) == PhysicalKey::ShiftLeft,
        key_for_code(KEY_LEFTALT) == PhysicalKey::AltLeft,
        key_for_code(KEY_LEFTMETA) == PhysicalKey::SuperLeft,
        key_for_code(KEY_RIGHTCTRL) == PhysicalKey::ControlRight,
        key_for_code(KEY_RIGHTSHIFT) == PhysicalKey::ShiftRight,
        key_for_code(KEY_RIGHTALT) == PhysicalKey::AltRight,
        key_for_code(KEY_RIGHTMETA) == PhysicalKey::SuperRight,
        key_for_code(KEY_PLAYPAUSE) == PhysicalKey::MediaPlayPause,
        key_for_code(KEY_NEXTSONG) == PhysicalKey::MediaNextTrack,
        key_for_code(KEY_PREVIOUSSONG) == PhysicalKey::MediaPrevTrack,
        key_for_code(KEY_VOLUMEUP) == PhysicalKey::MediaVolumeUp,
        key_for_code(KEY_VOLUMEDOWN) == PhysicalKey::MediaVolumeDown,
        key_for_code(KEY_MUTE) == PhysicalKey::MediaMute,
        key_for_code(KEY_COMPOSE) == PhysicalKey::Compose,
{
}

/// `BTN_MISC`: the first code of the miscellaneous/mouse button range.
pub const BTN_MISC: u16 = 0x100;

/// `BTN_JOYSTICK`: the first code after that range.
pub const BTN_JOYSTICK: u16 = 0x120;

pub const BTN_LEFT: u16 = 0x110;
pub const BTN_RIGHT: u16 = 0x111;
pub const BTN_MIDDLE: u16 = 0x112;
pub const BTN_SIDE: u16 = 0x113;
pub const BTN_EXTRA: u16 = 0x114;

/// The pointer button of an evdev key code: the five mouse buttons by name, any other
/// code in `BTN_MISC..BTN_JOYSTICK` as `Other` with the code unchanged, and nothing
/// for codes outside that range.
pub open spec fn button_for_code(code: u16) -> Option<PointerButton> {
    if code == BTN_LEFT {
        Some(PointerButton::Left)
    } else if code == BTN_RIGHT {
        Some(PointerButton::Right)
    } else if code == BTN_MIDDLE {
        Some(PointerButton::Middle)
    } else if code == BTN_SIDE {
        Some(PointerButton::Back)
    } else if code == BTN_EXTRA {
        Some(PointerButton::Forward)
    } else if BTN_MISC <= code < BTN_JOYSTICK {
        Some(PointerButton::Other(code))
    } else {
        None
    }
}

pub fn map_button(code: u16) -> (b: Option<PointerButton>)
    ensures
        b == button_for_code(code),
{
    if code == BTN_LEFT {
        Some(PointerButton::Left)
    } else if code == BTN_RIGHT {
        Some(PointerButton::Right)
    } else if code == BTN_MIDDLE {
        Some(PointerButton::Middle)
    } else if code == BTN_SIDE {
        Some(PointerButton::Back)
    } else if code == BTN_EXTRA {
        Some(PointerButton::Forward)
    } else if BTN_MISC <= code && code < BTN_JOYSTICK {
        Some(PointerButton::Other(code))
    } else {
        None
    }
}

/// Letter and digit codes are never mistaken for pointer buttons, and a named key code
/// never falls back to `Other`.
pub proof fn law_keys_are_not_buttons(code: u16)
    ensures
        code < BTN_MISC ==> button_for_code(code) is None,
        key_for_code(code) matches PhysicalKey::Other(raw) ==> raw == code,
{
}

/// The five mouse buttons have the kernel's codes for them, every other code of the
/// kernel's mouse-button range is `Other` with the code unchanged, and no key code below
/// that range is a button.
pub proof fn law_buttons_have_their_kernel_codes(code: u16)
    ensures
        button_for_code(0x110) == Some(PointerButton::Left),
        button_for_code(0x111) == Some(PointerButton::Right),
        button_for_code(0x112) == Some(PointerButton::Middle),
        button_for_code(0x113) == Some(PointerButton::Back),
        button_for_code(0x114) == Some(PointerButton::Forward),
        0x115 <= code < 0x120 || 0x100 <= code < 0x110 ==> button_for_code(code) == Some(PointerButton::Other(code)),
        code < 0x100 || code >= 0x120 ==> button_for_code(code) is None,
{
}

} // verus!
