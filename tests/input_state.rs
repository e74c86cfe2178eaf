use cg8::input::Input;

#[test]
fn untracked_key_is_neither_pressed_nor_released() {
    let input = Input::new();
    assert!(!input.is_pressed(3));
    assert!(!input.is_just_pressed(3));
    assert!(!input.is_just_released(3));
    let d = Input::default();
    assert!(!d.is_pressed(3));
}

#[test]
fn press_is_just_pressed_until_next_tick() {
    let mut input = Input::new();
    input.press(7);
    assert!(input.is_pressed(7));
    assert!(input.is_just_pressed(7));
    assert!(!input.is_just_released(7));
    input.next_tick();
    assert!(input.is_pressed(7));
    assert!(!input.is_just_pressed(7));
    input.next_tick();
    input.next_tick();
    assert!(input.is_pressed(7));
}

#[test]
fn release_is_seen_for_one_tick_then_forgotten() {
    let mut input = Input::new();
    input.press(9);
    input.next_tick();
    input.release(9);
    assert!(!input.is_pressed(9));
    assert!(input.is_just_released(9));
    input.next_tick();
    assert!(!input.is_pressed(9));
    assert!(!input.is_just_released(9));
    assert!(!input.is_just_pressed(9));
}

#[test]
fn keys_are_tracked_independently() {
    let mut input = Input::new();
    input.press(1);
    input.press(2);
    input.release(2);
    assert!(input.is_pressed(1));
    assert!(input.is_just_released(2));
    input.next_tick();
    assert!(input.is_pressed(1));
    assert!(!input.is_just_released(2));
    input.press(2);
    assert!(input.is_just_pressed(2));
    assert!(!input.is_just_pressed(1));
}

#[test]
fn axis_from_opposite_keys() {
    let mut input = Input::new();
    assert_eq!(input.axis(1, 2), 0);
    input.press(2);
    assert_eq!(input.axis(1, 2), 1);
    input.press(1);
    assert_eq!(input.axis(1, 2), 0);
    input.release(2);
    assert_eq!(input.axis(1, 2), -1);
}
