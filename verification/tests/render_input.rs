use stargaze::input::{GamepadAxis, GamepadButton, InputEvent, MouseButton, MAX_GAMEPADS};
use stargaze::render_input::{
    map_gamepad_axis, map_gamepad_button, map_mouse_button, shortcut_action, InputTracker,
    PadSlots, ShortcutAction, LALTMOD, LCTRLMOD, LSHIFTMOD, RALTMOD, RCTRLMOD, RSHIFTMOD,
    SCANCODE_Q, SCANCODE_S, SCANCODE_X, SCANCODE_Z,
};
use stargaze::ui::{Axis, Button, PointerButton};

const CHORD: u16 = LCTRLMOD | LALTMOD | LSHIFTMOD;
const SCANCODE_A: u32 = 4;
const SCANCODE_ESCAPE: u32 = 41;

#[test]
fn shortcut_requires_full_chord() {
    assert_eq!(
        shortcut_action(CHORD, SCANCODE_Q),
        Some(ShortcutAction::Quit)
    );
    assert_eq!(
        shortcut_action(CHORD, SCANCODE_Z),
        Some(ShortcutAction::ToggleCapture)
    );
    assert_eq!(
        shortcut_action(CHORD, SCANCODE_X),
        Some(ShortcutAction::ToggleFullscreen)
    );
    assert_eq!(
        shortcut_action(CHORD, SCANCODE_S),
        Some(ShortcutAction::ToggleStats)
    );

    // Partial chords must not trigger.
    assert_eq!(
        shortcut_action(LCTRLMOD | LALTMOD, SCANCODE_Q),
        None
    );
    assert_eq!(
        shortcut_action(LCTRLMOD | LSHIFTMOD, SCANCODE_Q),
        None
    );
    assert_eq!(shortcut_action(0, SCANCODE_Q), None);
}

#[test]
fn shortcut_accepts_right_side_modifiers() {
    let right = RCTRLMOD | RALTMOD | RSHIFTMOD;
    assert_eq!(
        shortcut_action(right, SCANCODE_Q),
        Some(ShortcutAction::Quit)
    );
}

#[test]
fn shortcut_ignores_other_keys() {
    assert_eq!(shortcut_action(CHORD, SCANCODE_A), None);
    assert_eq!(shortcut_action(CHORD, SCANCODE_ESCAPE), None);
}

#[test]
fn pad_slots_allocate_lowest_free_and_reuse() {
    let mut slots = PadSlots::new();
    assert_eq!(slots.allocate(100), Some(0));
    assert_eq!(slots.allocate(200), Some(1));
    assert_eq!(slots.allocate(300), Some(2));

    // Re-allocating an existing instance returns its slot.
    assert_eq!(slots.allocate(200), Some(1));

    // Releasing frees the slot for the next controller.
    assert_eq!(slots.release(200), Some(1));
    assert_eq!(slots.get(200), None);
    assert_eq!(slots.allocate(400), Some(1));
}

#[test]
fn pad_slots_full_returns_none() {
    let mut slots = PadSlots::new();
    for id in 0..u32::from(MAX_GAMEPADS) {
        assert!(slots.allocate(id).is_some());
    }
    assert_eq!(slots.allocate(99), None);
}

#[test]
fn pad_slots_release_unknown_returns_none() {
    let mut slots = PadSlots::new();
    assert_eq!(slots.release(42), None);
}

#[test]
fn tracker_releases_everything_pressed() {
    let mut tracker = InputTracker::new();
    tracker.key_down(4);
    tracker.key_down(225); // LShift
    tracker.key_up(4);
    tracker.mouse_down(MouseButton::Left);

    let events = tracker.release_all();
    assert_eq!(events.len(), 2);
    assert!(events.contains(&InputEvent::Keyboard {
        scancode: 225,
        pressed: false
    }));
    assert!(events.contains(&InputEvent::MouseButton {
        button: MouseButton::Left,
        pressed: false
    }));

    // Tracker is empty afterwards.
    assert!(tracker.release_all().is_empty());
}

#[test]
fn window_input_maps_to_remote_input() {
    assert_eq!(map_mouse_button(PointerButton::Side), Some(MouseButton::Side));
    assert_eq!(map_mouse_button(PointerButton::Extra), Some(MouseButton::Extra));
    assert_eq!(map_mouse_button(PointerButton::Other), None);
    assert_eq!(map_gamepad_axis(Axis::TriggerRight), GamepadAxis::TriggerRight);
    assert_eq!(map_gamepad_button(Button::X), Some(GamepadButton::West));
    assert_eq!(map_gamepad_button(Button::Y), Some(GamepadButton::North));
}
