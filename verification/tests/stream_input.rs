use stargaze::emulation::{Closed, EmulatedPads, PadAdded};
use stargaze::gamepad::{PadKey, SharedGamepads, QUIT_CHORD_HOLD};
use stargaze::input::{GamepadAxis, GamepadButton, InputEvent, MouseButton, MAX_GAMEPADS};
use stargaze::render_input::{
    LALTMOD, LCTRLMOD, LSHIFTMOD, SCANCODE_ESCAPE, SCANCODE_Q, SCANCODE_S, SCANCODE_X, SCANCODE_Z,
};
use stargaze::stream_input::{window_title, StreamAction, StreamEvent, StreamInput};
use stargaze::ui::{Axis, Button, PointerButton};

const CHORD: u16 = LCTRLMOD | LALTMOD | LSHIFTMOD;

fn press(code: u32) -> StreamEvent {
    StreamEvent::KeyDown { scancode: Some(code), keymod: 0, repeat: false }
}

fn shortcut(code: u32) -> StreamEvent {
    StreamEvent::KeyDown { scancode: Some(code), keymod: CHORD, repeat: false }
}

#[test]
fn keys_go_to_the_remote_session() {
    let mut input = StreamInput::new();
    let shared = SharedGamepads::new();
    let handled = input.handle(&shared, &press(4));
    assert_eq!(handled.sent, vec![InputEvent::Keyboard { scancode: 4, pressed: true }]);
    assert_eq!(handled.action, None);
    let repeat = StreamEvent::KeyDown { scancode: Some(4), keymod: 0, repeat: true };
    assert!(input.handle(&shared, &repeat).sent.is_empty());
    assert_eq!(
        input.shut_down(),
        vec![InputEvent::Keyboard { scancode: 4, pressed: false }]
    );
    assert!(input.shut_down().is_empty());
}

#[test]
fn shortcuts_release_what_is_held() {
    let mut input = StreamInput::new();
    let shared = SharedGamepads::new();
    input.handle(&shared, &press(224));
    let handled = input.handle(&shared, &shortcut(SCANCODE_Z));
    assert_eq!(handled.sent, vec![InputEvent::Keyboard { scancode: 224, pressed: false }]);
    assert_eq!(handled.action, Some(StreamAction::ApplyCapture(false)));
    assert!(!input.captured());
    assert!(input.handle(&shared, &press(4)).sent.is_empty());
    assert_eq!(input.handle(&shared, &shortcut(SCANCODE_X)).action, Some(StreamAction::ToggleFullscreen));
    assert_eq!(input.handle(&shared, &shortcut(SCANCODE_S)).action, None);
    assert!(input.stats_visible());
    assert_eq!(input.handle(&shared, &shortcut(SCANCODE_Q)).action, Some(StreamAction::Quit));
    assert_eq!(input.handle(&shared, &StreamEvent::Quit).action, Some(StreamAction::Quit));
}

#[test]
fn escape_ends_the_session() {
    let mut input = StreamInput::new();
    let shared = SharedGamepads::new();
    input.handle(&shared, &press(4));
    let handled = input.handle(&shared, &press(SCANCODE_ESCAPE));
    assert_eq!(handled.sent, vec![InputEvent::Keyboard { scancode: 4, pressed: false }]);
    assert_eq!(handled.action, Some(StreamAction::Quit));
    assert!(input.shut_down().is_empty());
    // With a modifier, or held, it does not.
    let mut input = StreamInput::new();
    for keymod in [LSHIFTMOD, CHORD] {
        let event = StreamEvent::KeyDown { scancode: Some(SCANCODE_ESCAPE), keymod, repeat: false };
        let handled = input.handle(&shared, &event);
        assert_eq!(
            handled.sent,
            vec![InputEvent::Keyboard { scancode: SCANCODE_ESCAPE, pressed: true }]
        );
        assert_eq!(handled.action, None);
    }
    let held = StreamEvent::KeyDown { scancode: Some(SCANCODE_ESCAPE), keymod: 0, repeat: true };
    assert_eq!(input.handle(&shared, &held).action, None);
}

#[test]
fn released_motion_always_fits() {
    let mut input = StreamInput::new();
    let shared = SharedGamepads::new();
    let motion = |xrel| StreamEvent::MouseMotion { xrel, yrel: 0 };
    input.handle(&shared, &motion(1));
    assert!(!input.can_handle(&motion(i32::MAX)));
    input.handle(&shared, &shortcut(SCANCODE_Z));
    assert!(input.can_handle(&motion(i32::MAX)));
    assert!(input.handle(&shared, &motion(i32::MAX)).sent.is_empty());
    assert_eq!(input.take_motion(), Some(InputEvent::MouseMove { dx: 1, dy: 0 }));
}

#[test]
fn mouse_motion_is_sent_once() {
    let mut input = StreamInput::new();
    let shared = SharedGamepads::new();
    let motion = |xrel, yrel| StreamEvent::MouseMotion { xrel, yrel };
    assert!(input.handle(&shared, &motion(3, -1)).sent.is_empty());
    assert!(input.handle(&shared, &motion(4, 0)).sent.is_empty());
    assert!(!input.can_handle(&motion(i32::MAX, 0)));
    assert_eq!(input.take_motion(), Some(InputEvent::MouseMove { dx: 7, dy: -1 }));
    assert_eq!(input.take_motion(), None);
    let button = StreamEvent::MouseButtonDown { button: PointerButton::Middle };
    assert_eq!(
        input.handle(&shared, &button).sent,
        vec![InputEvent::MouseButton { button: MouseButton::Middle, pressed: true }]
    );
    assert_eq!(
        input.handle(&shared, &StreamEvent::MouseWheel { x: 1, y: -2 }).sent,
        vec![InputEvent::MouseWheel { dx: 1, dy: -2 }]
    );
}

#[test]
fn controllers_are_forwarded_by_slot() {
    let mut input = StreamInput::new();
    let mut shared = SharedGamepads::new();
    let mut pads = EmulatedPads::new(true);
    let axis = StreamEvent::ControllerAxisMotion { which: 70, axis: Axis::LeftY, value: -5 };
    assert!(input.handle(&shared, &axis).sent.is_empty());
    // A controller that is passed through holds the first slot.
    assert_eq!(shared.allocate(&PadKey::Evdev("/dev/input/event3".to_string())), Some(0));
    assert_eq!(pads.add(&mut shared, 70, 1, 2), PadAdded::Connected(1));
    assert_eq!(pads.add(&mut shared, 70, 1, 2), PadAdded::AlreadyOpen);
    assert_eq!(
        input.handle(&shared, &axis).sent,
        vec![InputEvent::GamepadAxis { pad: 1, axis: GamepadAxis::LeftY, value: -5 }]
    );
    let down = StreamEvent::ControllerButtonDown { which: 70, button: Button::A };
    assert_eq!(
        input.handle(&shared, &down).sent,
        vec![InputEvent::GamepadButton { pad: 1, button: GamepadButton::South, pressed: true }]
    );
    let other = StreamEvent::ControllerButtonUp { which: 70, button: Button::Other };
    assert!(input.handle(&shared, &other).sent.is_empty());
    for id in 2..u32::from(MAX_GAMEPADS) {
        assert_eq!(pads.add(&mut shared, 70 + id, 1, 2), PadAdded::Connected(id as u8));
    }
    assert_eq!(pads.add(&mut shared, 99, 1, 2), PadAdded::Full);
    assert_eq!(pads.remove(&mut shared, 70), Some(1));
    assert_eq!(pads.remove(&mut shared, 70), None);
    assert_eq!(pads.add(&mut shared, 99, 1, 2), PadAdded::Connected(1));
}

#[test]
fn passed_through_controllers_are_not_emulated() {
    let mut shared = SharedGamepads::new();
    let mut pads = EmulatedPads::new(true);
    assert_eq!(EmulatedPads::new(false).add(&mut shared, 1, 1, 2), PadAdded::NotEmulated);
    assert_eq!(pads.add(&mut shared, 1, 0x54c, 1), PadAdded::Connected(0));
    assert_eq!(pads.add(&mut shared, 2, 0x54c, 2), PadAdded::Connected(1));
    assert!(pads.follow(&mut shared).is_empty());
    shared.mark_grabbed("/dev/input/event3", 0x54c, 1);
    assert_eq!(pads.add(&mut shared, 3, 0x54c, 1), PadAdded::PassedThrough);
    assert_eq!(pads.follow(&mut shared), vec![Closed { id: 1, pad: Some(0) }]);
    assert!(pads.follow(&mut shared).is_empty());
    assert_eq!(shared.get(&PadKey::Sdl(1)), None);
    assert_eq!(shared.get(&PadKey::Sdl(2)), Some(1));
}

#[test]
fn chord_of_an_emulated_controller_ends_the_session() {
    let mut shared = SharedGamepads::new();
    let mut pads = EmulatedPads::new(true);
    pads.add(&mut shared, 5, 1, 2);
    pads.add(&mut shared, 6, 1, 3);
    // The two buttons on different controllers are no chord.
    pads.button_at(5, Button::Back, true, 0);
    pads.button_at(6, Button::Start, true, 0);
    assert!(!pads.ends_session_at(&shared, 2 * QUIT_CHORD_HOLD));
    pads.button_at(6, Button::Back, true, 10);
    assert!(!pads.ends_session_at(&shared, QUIT_CHORD_HOLD));
    assert!(pads.ends_session_at(&shared, QUIT_CHORD_HOLD + 10));
    pads.button_at(6, Button::Start, false, QUIT_CHORD_HOLD);
    assert!(!pads.ends_session_at(&shared, QUIT_CHORD_HOLD + 10));
    shared.request_quit();
    assert!(pads.ends_session_at(&shared, 0));
}

#[test]
fn title_tells_where_input_goes() {
    assert_eq!(window_title(true), "Stargaze");
    assert_eq!(
        window_title(false),
        "Stargaze — input released (Ctrl+Alt+Shift+Z to capture)"
    );
}
