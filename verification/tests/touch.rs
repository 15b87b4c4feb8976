use sher_input::{ContactId, InputDeviceId, NormalizedPosition, TouchEvent, TouchPhase, TouchState, TouchStateTable};

fn touch(id: u32, phase: TouchPhase) -> TouchEvent {
    TouchEvent { contact_id: ContactId(id), phase, position: NormalizedPosition { x: 0, y: 0 }, pressure: None, size: None }
}

#[test]
fn tracks_multiple_simultaneous_contacts() {
    let mut state = TouchState::new();
    state.apply(&touch(14, TouchPhase::Down));
    state.apply(&touch(18, TouchPhase::Down));
    state.apply(&touch(23, TouchPhase::Down));

    assert_eq!(state.contact_count(), 3);
    assert!(state.active_contacts().iter().any(|(id, _)| *id == ContactId(14)));
    assert!(state.active_contacts().iter().any(|(id, _)| *id == ContactId(18)));
    assert!(state.active_contacts().iter().any(|(id, _)| *id == ContactId(23)));
}

#[test]
fn lifting_one_finger_does_not_affect_others() {
    let mut state = TouchState::new();
    state.apply(&touch(14, TouchPhase::Down));
    state.apply(&touch(18, TouchPhase::Down));

    state.apply(&touch(14, TouchPhase::Up));

    assert_eq!(state.contact_count(), 1);
    assert!(state.active_contacts().iter().any(|(id, _)| *id == ContactId(18)));
}

#[test]
fn cancel_removes_contact_like_up() {
    let mut state = TouchState::new();
    state.apply(&touch(1, TouchPhase::Down));
    state.apply(&touch(1, TouchPhase::Cancel));
    assert_eq!(state.contact_count(), 0);
}

#[test]
fn move_updates_position_without_changing_contact_count() {
    let mut state = TouchState::new();
    state.apply(&touch(1, TouchPhase::Down));
    let mut moved = touch(1, TouchPhase::Move);
    moved.position = NormalizedPosition { x: 42, y: 7 };
    state.apply(&moved);

    assert_eq!(state.contact_count(), 1);
    let (_, contact) = state.active_contacts()[0];
    assert_eq!(contact.position.x, 42);
}

#[test]
fn contact_keeps_pressure_and_size_of_its_latest_sample() {
    let mut state = TouchState::new();
    let mut down = touch(5, TouchPhase::Down);
    down.pressure = Some(0.5f32.to_bits());
    down.size = Some((2.0f32.to_bits(), 3.0f32.to_bits()));
    state.apply(&down);
    let c = state.contact(ContactId(5)).unwrap();
    assert_eq!(f32::from_bits(c.pressure.unwrap()), 0.5);
    assert_eq!(c.size.map(|(w, h)| (f32::from_bits(w), f32::from_bits(h))), Some((2.0, 3.0)));
    assert!(state.contact(ContactId(6)).is_none());
}

#[test]
fn lifting_an_unknown_contact_changes_nothing() {
    let mut state = TouchState::new();
    state.apply(&touch(1, TouchPhase::Down));
    state.apply(&touch(9, TouchPhase::Up));
    assert_eq!(state.contact_count(), 1);
}

#[test]
fn touch_table_keeps_devices_apart_and_forgets_removed_ones() {
    let mut table = TouchStateTable::new();
    let a = InputDeviceId(1);
    let b = InputDeviceId(2);
    table.apply(a, &touch(1, TouchPhase::Down));
    table.apply(b, &touch(1, TouchPhase::Down));
    table.apply(b, &touch(2, TouchPhase::Down));
    table.apply(a, &touch(1, TouchPhase::Up));
    assert_eq!(table.state(a).unwrap().contact_count(), 0);
    assert_eq!(table.state(b).unwrap().contact_count(), 2);
    table.remove(b);
    assert!(table.state(b).is_none());
}

#[test]
fn a_contact_is_counted_once_however_often_it_moves() {
    let mut state = TouchState::new();
    state.apply(&touch(3, TouchPhase::Down));
    state.apply(&touch(3, TouchPhase::Down));
    state.apply(&touch(3, TouchPhase::Move));
    assert_eq!(state.contact_count(), 1);
    state.apply(&touch(4, TouchPhase::Move));
    assert_eq!(state.contact_count(), 2);
}
