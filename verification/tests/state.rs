use rand::Rng;
use virtual_picross::state::{GameState, DPAD_OFFSETS};

#[test]
fn new_state_has_nothing_pressed() {
    let state = GameState::new();
    assert_eq!(state.buttons_held(), 0);
    assert_eq!(state.buttons_pressed(), 0);
    assert_eq!(state.directions_held(), 0);
}

#[test]
fn pressed_buttons_are_those_that_went_down() {
    let mut state = GameState::new();
    state.update(0b0110);
    assert_eq!(state.buttons_held(), 0b0110);
    assert_eq!(state.buttons_pressed(), 0b0110);
    state.update(0b1100);
    assert_eq!(state.buttons_held(), 0b1100);
    assert_eq!(state.buttons_pressed(), 0b1000);
    state.update(0b1100);
    assert_eq!(state.buttons_pressed(), 0);
    state.update(0);
    assert_eq!(state.buttons_pressed(), 0);
    assert_eq!(state.buttons_held(), 0);
}

#[test]
fn directions_act_at_once_and_after_ten_frames() {
    let mut state = GameState::new();
    let left = 1 << DPAD_OFFSETS[1];
    state.update(left);
    assert_eq!(state.directions_held(), 0x200);
    for _ in 2..10 {
        state.update(left);
        assert_eq!(state.directions_held(), 0);
    }
    for _ in 10..40 {
        state.update(left);
        assert_eq!(state.directions_held(), 0x200);
    }
    state.update(0);
    assert_eq!(state.directions_held(), 0);
    state.update(left);
    assert_eq!(state.directions_held(), 0x200);
}

#[test]
fn directions_are_counted_apart() {
    let mut state = GameState::new();
    assert_eq!(DPAD_OFFSETS, [8, 9, 10, 11]);
    state.update(0x0100);
    assert_eq!(state.directions_held(), 0x0100);
    state.update(0x0900);
    assert_eq!(state.directions_held(), 0x0800);
    state.update(0x0f00 | 0x00ff | 0xf000);
    assert_eq!(state.directions_held(), 0x0600);
    for _ in 0..6 {
        state.update(0x0f00);
    }
    assert_eq!(state.directions_held(), 0);
    state.update(0x0f00);
    assert_eq!(state.directions_held(), 0x0100);
    state.update(0x0f00);
    assert_eq!(state.directions_held(), 0x0900);
    state.update(0x0f00);
    assert_eq!(state.directions_held(), 0x0f00);
}

#[test]
fn the_generator_is_handed_out() {
    let mut state = GameState::new();
    let mut other = GameState::new();
    let a: u64 = state.rand().random();
    let b: u64 = other.rand().random();
    assert_eq!(a, b);
    other.update(4);
    let a: u64 = state.rand().random();
    let b: u64 = other.rand().random();
    assert_ne!(a, b);
    assert_eq!(other.buttons_held(), 4);
}
