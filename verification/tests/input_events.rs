//! Checks of the input-state transitions driven by key and mouse events.

use pewpew::input::key_down_event;
use pewpew::input::key_up_event;
use pewpew::input::mouse_button_down_event;
use pewpew::input::mouse_button_up_event;
use pewpew::input::InputState;
use pewpew::input::Key;

/// The default snapshot is fully idle.
#[test]
fn default_input_is_idle() {
    let input = InputState::default();
    assert_eq!(input.xaxis, 0);
    assert_eq!(input.yaxis, 0);
    assert_eq!(input.xclick, 0);
    assert_eq!(input.yclick, 0);
    assert!(!input.fire);
}

/// Each movement key drives its axis to the documented value and leaves
/// the other axis alone.
#[test]
fn key_down_sets_axes() {
    let mut input = InputState::default();
    assert!(!key_down_event(&mut input, Key::W));
    assert_eq!(input.yaxis, 1);
    assert!(!key_down_event(&mut input, Key::S));
    assert_eq!(input.yaxis, -1);
    assert_eq!(input.xaxis, 0);
    assert!(!key_down_event(&mut input, Key::A));
    assert_eq!(input.xaxis, -1);
    assert!(!key_down_event(&mut input, Key::D));
    assert_eq!(input.xaxis, 1);
    assert_eq!(input.yaxis, -1);
}

/// Escape asks the host loop to quit and changes no state.
#[test]
fn escape_requests_quit() {
    let mut input = InputState::default();
    key_down_event(&mut input, Key::D);
    let quit = key_down_event(&mut input, Key::Escape);
    assert!(quit);
    assert_eq!(input.xaxis, 1);
    assert_eq!(input.yaxis, 0);
}

/// A key the game does not react to leaves everything alone.
#[test]
fn other_keys_are_ignored() {
    let mut input = InputState::default();
    key_down_event(&mut input, Key::W);
    assert!(!key_down_event(&mut input, Key::Other));
    key_up_event(&mut input, Key::Other);
    assert_eq!(input.xaxis, 0);
    assert_eq!(input.yaxis, 1);
}

/// Releasing a movement key zeroes its whole axis.
#[test]
fn key_up_zeroes_axis() {
    let mut input = InputState::default();
    key_down_event(&mut input, Key::W);
    key_down_event(&mut input, Key::D);
    key_up_event(&mut input, Key::W);
    assert_eq!(input.yaxis, 0);
    assert_eq!(input.xaxis, 1);
    key_up_event(&mut input, Key::D);
    assert_eq!(input.xaxis, 0);
}

/// The documented edge-trigger race: releasing one key of an opposed
/// pair zeroes the axis even though the opposite key is still held.
#[test]
fn key_up_race_leaves_stale_zero() {
    let mut input = InputState::default();
    key_down_event(&mut input, Key::A);
    key_down_event(&mut input, Key::D);
    assert_eq!(input.xaxis, 1);
    key_up_event(&mut input, Key::A);
    assert_eq!(input.xaxis, 0);
}

/// A mouse press records the click position and raises the fire flag; the
/// release clears both.
#[test]
fn mouse_click_cycle() {
    let mut input = InputState::default();
    mouse_button_down_event(&mut input, 12_000_000, -7_000_000);
    assert_eq!(input.xclick, 12_000_000);
    assert_eq!(input.yclick, -7_000_000);
    assert!(input.fire);
    assert_eq!(input.xaxis, 0);
    mouse_button_up_event(&mut input);
    assert_eq!(input.xclick, 0);
    assert_eq!(input.yclick, 0);
    assert!(!input.fire);
}
