use evdev::Key;
use sher_input::linux::keymap::{map_button, map_key};
use sher_input::{PhysicalKey, PointerButton};

#[test]
fn letter_and_digit_keys_map_to_their_named_variants() {
    assert_eq!(map_key(Key::KEY_A.code()), PhysicalKey::KeyA);
    assert_eq!(map_key(Key::KEY_Z.code()), PhysicalKey::KeyZ);
    assert_eq!(map_key(Key::KEY_0.code()), PhysicalKey::Digit0);
    assert_eq!(map_key(Key::KEY_9.code()), PhysicalKey::Digit9);
}

#[test]
fn an_unmapped_key_falls_back_to_other_carrying_its_raw_code() {
    let mapped = map_key(Key::KEY_KATAKANA.code());
    assert_eq!(mapped, PhysicalKey::Other(Key::KEY_KATAKANA.code() as u32));
}

#[test]
fn mouse_buttons_map_to_their_named_pointer_button_variants() {
    assert_eq!(map_button(Key::BTN_LEFT.code()), Some(PointerButton::Left));
    assert_eq!(map_button(Key::BTN_RIGHT.code()), Some(PointerButton::Right));
    assert_eq!(map_button(Key::BTN_MIDDLE.code()), Some(PointerButton::Middle));
    assert_eq!(map_button(Key::BTN_SIDE.code()), Some(PointerButton::Back));
    assert_eq!(map_button(Key::BTN_EXTRA.code()), Some(PointerButton::Forward));
}

#[test]
fn misc_button_codes_in_range_map_to_other_with_the_raw_code_preserved() {
    assert_eq!(map_button(Key::BTN_0.code()), Some(PointerButton::Other(Key::BTN_0.code())));
    assert_eq!(Key::BTN_0.code(), 0x100);
}

#[test]
fn a_letter_key_is_not_mistaken_for_a_pointer_button() {
    assert_eq!(map_button(Key::KEY_A.code()), None);
}

#[test]
fn keymap_agrees_with_the_kernel_codes_of_named_keys() {
    let pairs = [
        (Key::KEY_ENTER, PhysicalKey::Enter),
        (Key::KEY_ESC, PhysicalKey::Escape),
        (Key::KEY_SPACE, PhysicalKey::Space),
        (Key::KEY_LEFTCTRL, PhysicalKey::ControlLeft),
        (Key::KEY_RIGHTALT, PhysicalKey::AltRight),
        (Key::KEY_LEFTMETA, PhysicalKey::SuperLeft),
        (Key::KEY_F1, PhysicalKey::F1),
        (Key::KEY_F12, PhysicalKey::F12),
        (Key::KEY_UP, PhysicalKey::ArrowUp),
        (Key::KEY_PLAYPAUSE, PhysicalKey::MediaPlayPause),
        (Key::KEY_COMPOSE, PhysicalKey::Compose),
    ];
    for (key, expected) in pairs {
        assert_eq!(map_key(key.code()), expected, "{key:?}");
    }
}

#[test]
fn codes_past_the_mouse_button_range_are_not_buttons() {
    assert_eq!(map_button(0x11f), Some(PointerButton::Other(0x11f)));
    assert_eq!(map_button(Key::BTN_TRIGGER.code()), None);
    assert_eq!(map_button(0xff), None);
}
