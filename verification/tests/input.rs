use std::collections::HashSet;

use engine::KeyboardState;

const A: i32 = 97;
const B: i32 = 98;
const C: i32 = 99;

fn keys(codes: &[i32]) -> HashSet<i32> {
    codes.iter().copied().collect()
}

#[test]
fn pressed_and_released_keys_are_the_two_differences() {
    let mut state = KeyboardState { previous: keys(&[A, B]), current: keys(&[B, C]) };
    assert_eq!(state.new_keys(), keys(&[C]));
    assert_eq!(state.old_keys(), keys(&[A]));
    state.commit();
    assert_eq!(state.previous, keys(&[B, C]));
    assert_eq!(state.current, keys(&[B, C]));
    assert!(state.new_keys().is_empty());
    assert!(state.old_keys().is_empty());
}

#[test]
fn fresh_keyboard_state_holds_no_keys() {
    let state = KeyboardState::new();
    assert!(state.previous.is_empty());
    assert!(state.current.is_empty());
    assert!(state.new_keys().is_empty());
    assert!(state.old_keys().is_empty());
}

#[test]
fn refresh_replaces_the_current_keys_only() {
    let mut state = KeyboardState { previous: keys(&[A]), current: keys(&[A]) };
    state.refresh(keys(&[B, C]));
    assert_eq!(state.previous, keys(&[A]));
    assert_eq!(state.current, keys(&[B, C]));
    assert_eq!(state.new_keys(), keys(&[B, C]));
    assert_eq!(state.old_keys(), keys(&[A]));
}

#[test]
fn a_key_held_over_several_frames_is_pressed_once() {
    let mut state = KeyboardState::new();
    let mut presses = 0;
    let mut releases = 0;
    for held in [keys(&[A]), keys(&[A]), keys(&[A, B]), keys(&[B]), keys(&[])] {
        state.refresh(held);
        presses += state.new_keys().iter().filter(|&&k| k == A).count();
        releases += state.old_keys().iter().filter(|&&k| k == A).count();
        state.commit();
    }
    assert_eq!((presses, releases), (1, 1));
}
