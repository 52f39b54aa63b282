use stargaze::ui::{
    Axis, Button, Event, InputMapper, Keycode, PointerButton, StickDir, CROSS_DEVICE_DEDUP_WINDOW,
    STICK_REPEAT_DELAY, STICK_REPEAT_INTERVAL,
};
use stargaze::widgets::NavEvent;

fn axis_event(axis: Axis, value: i16) -> Event {
    Event::ControllerAxisMotion { which: 0, axis, value }
}

fn pad_button(which: u32, button: Button) -> Event {
    Event::ControllerButtonDown { which, button }
}

fn key_down(keycode: Keycode) -> Event {
    Event::KeyDown { keycode: Some(keycode) }
}

#[test]
fn stick_press_emits_once_then_repeats_after_delay() {
    let mut mapper = InputMapper::new();
    assert_eq!(
        mapper.map(&axis_event(Axis::LeftY, 20000)),
        Some(NavEvent::Down)
    );
    // Same direction held: no immediate re-emit.
    assert_eq!(mapper.map(&axis_event(Axis::LeftY, 25000)), None);
    // Repeat not due yet.
    assert_eq!(mapper.tick(), None);
    // Releasing clears the held state.
    assert_eq!(mapper.map(&axis_event(Axis::LeftY, 0)), None);
    assert_eq!(mapper.tick(), None);
}

#[test]
fn stick_direction_change_emits_new_press() {
    let mut mapper = InputMapper::new();
    assert_eq!(
        mapper.map(&axis_event(Axis::LeftY, -20000)),
        Some(NavEvent::Up)
    );
    assert_eq!(
        mapper.map(&axis_event(Axis::LeftX, 30000)),
        Some(NavEvent::Right)
    );
}

#[test]
fn small_deflection_is_ignored() {
    let mut mapper = InputMapper::new();
    assert_eq!(mapper.map(&axis_event(Axis::LeftY, 4000)), None);
    assert_eq!(mapper.tick(), None);
}

#[test]
fn cross_device_echo_is_suppressed() {
    let mut mapper = InputMapper::new();

    // One physical D-pad press, echoed by Steam's virtual pad and
    // its synthesized arrow key: only the first event survives.
    assert_eq!(
        mapper.map(&pad_button(0, Button::DPadDown)),
        Some(NavEvent::Down)
    );
    assert_eq!(mapper.map(&pad_button(1, Button::DPadDown)), None);
    assert_eq!(mapper.map(&key_down(Keycode::Down)), None);

    // B echoed as Escape (Steam desktop layout).
    assert_eq!(mapper.map(&pad_button(0, Button::B)), Some(NavEvent::Back));
    assert_eq!(mapper.map(&key_down(Keycode::Escape)), None);
}

#[test]
fn same_device_presses_pass_through() {
    let mut mapper = InputMapper::new();

    // Two rapid presses on the SAME device are two real inputs.
    assert_eq!(
        mapper.map(&pad_button(0, Button::DPadDown)),
        Some(NavEvent::Down)
    );
    assert_eq!(
        mapper.map(&pad_button(0, Button::DPadDown)),
        Some(NavEvent::Down)
    );

    // A different nav event from another device is not a duplicate.
    assert_eq!(
        mapper.map(&pad_button(1, Button::DPadUp)),
        Some(NavEvent::Up)
    );
}

#[test]
fn echo_after_window_passes_through() {
    let mut mapper = InputMapper::new();
    let now = 1_000_000_000;
    assert_eq!(
        mapper.map_at(&pad_button(0, Button::DPadDown), now),
        Some(NavEvent::Down)
    );
    assert_eq!(
        mapper.map_at(&key_down(Keycode::Down), now + CROSS_DEVICE_DEDUP_WINDOW + 10_000_000),
        Some(NavEvent::Down),
        "a press on another device after the window is a real input"
    );
}

#[test]
fn held_stick_repeats() {
    let mut mapper = InputMapper::new();
    let start = 5_000_000_000;
    assert_eq!(mapper.map_at(&axis_event(Axis::LeftX, -9000), start), Some(NavEvent::Left));
    assert_eq!(mapper.tick_at(start + STICK_REPEAT_DELAY - 1), None);
    let first = start + STICK_REPEAT_DELAY;
    assert_eq!(mapper.tick_at(first), Some(NavEvent::Left));
    assert_eq!(mapper.tick_at(first + STICK_REPEAT_INTERVAL - 1), None);
    assert_eq!(mapper.tick_at(first + STICK_REPEAT_INTERVAL), Some(NavEvent::Left));
}

#[test]
fn dominant_direction() {
    assert_eq!(InputMapper::dominant_dir(7999, -7999), None);
    assert_eq!(InputMapper::dominant_dir(8000, 8000), Some(StickDir::Down));
    assert_eq!(InputMapper::dominant_dir(i16::MIN, 0), Some(StickDir::Left));
    assert_eq!(InputMapper::dominant_dir(0, i16::MIN), Some(StickDir::Up));
}

#[test]
fn pointer_and_text_pass() {
    let mut mapper = InputMapper::default();
    assert_eq!(
        mapper.map(&Event::MouseMotion { x: 3, y: 4 }),
        Some(NavEvent::PointerMove(3, 4))
    );
    let click = |mouse_btn| Event::MouseButtonDown { mouse_btn, x: 3, y: 4 };
    assert_eq!(mapper.map(&click(PointerButton::Left)), Some(NavEvent::PointerClick(3, 4)));
    assert_eq!(mapper.map(&click(PointerButton::Right)), None);
    assert_eq!(
        mapper.map(&Event::TextInput { text: "ab".to_string() }),
        Some(NavEvent::Text("ab".to_string()))
    );
    assert_eq!(mapper.map(&Event::KeyDown { keycode: None }), None);
    assert_eq!(mapper.map(&Event::Other), None);
}
