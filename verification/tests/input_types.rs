use stargaze::input::{
    sdl_scancode_to_evdev, GamepadAxis, GamepadButton, InputEvent, MouseButton,
};

#[test]
fn scancode_mapping_letters() {
    // A (SDL 4 → evdev 30)
    assert_eq!(sdl_scancode_to_evdev(4), Some(30));
    // Z (SDL 29 → evdev 44)
    assert_eq!(sdl_scancode_to_evdev(29), Some(44));
    // Q (SDL 20 → evdev 16)
    assert_eq!(sdl_scancode_to_evdev(20), Some(16));
}

#[test]
fn scancode_mapping_digits() {
    // 1 (SDL 30 → evdev 2)
    assert_eq!(sdl_scancode_to_evdev(30), Some(2));
    // 0 (SDL 39 → evdev 11)
    assert_eq!(sdl_scancode_to_evdev(39), Some(11));
}

#[test]
fn scancode_mapping_common_keys() {
    // Space (SDL 44 → evdev 57)
    assert_eq!(sdl_scancode_to_evdev(44), Some(57));
    // Enter (SDL 40 → evdev 28)
    assert_eq!(sdl_scancode_to_evdev(40), Some(28));
    // Escape (SDL 41 → evdev 1)
    assert_eq!(sdl_scancode_to_evdev(41), Some(1));
    // Backspace (SDL 42 → evdev 14)
    assert_eq!(sdl_scancode_to_evdev(42), Some(14));
    // Tab (SDL 43 → evdev 15)
    assert_eq!(sdl_scancode_to_evdev(43), Some(15));
}

#[test]
fn scancode_mapping_function_keys() {
    // F1 (SDL 58 → evdev 59)
    assert_eq!(sdl_scancode_to_evdev(58), Some(59));
    // F11 (SDL 68 → evdev 87)
    assert_eq!(sdl_scancode_to_evdev(68), Some(87));
    // F12 (SDL 69 → evdev 88)
    assert_eq!(sdl_scancode_to_evdev(69), Some(88));
}

#[test]
fn scancode_mapping_arrows() {
    // Right (SDL 79 → evdev 106)
    assert_eq!(sdl_scancode_to_evdev(79), Some(106));
    // Left (SDL 80 → evdev 105)
    assert_eq!(sdl_scancode_to_evdev(80), Some(105));
    // Down (SDL 81 → evdev 108)
    assert_eq!(sdl_scancode_to_evdev(81), Some(108));
    // Up (SDL 82 → evdev 103)
    assert_eq!(sdl_scancode_to_evdev(82), Some(103));
}

#[test]
fn scancode_mapping_modifiers() {
    // LCtrl (SDL 224 → evdev 29)
    assert_eq!(sdl_scancode_to_evdev(224), Some(29));
    // LShift (SDL 225 → evdev 42)
    assert_eq!(sdl_scancode_to_evdev(225), Some(42));
    // LAlt (SDL 226 → evdev 56)
    assert_eq!(sdl_scancode_to_evdev(226), Some(56));
    // RGui (SDL 231 → evdev 126)
    assert_eq!(sdl_scancode_to_evdev(231), Some(126));
}

#[test]
fn scancode_mapping_unknown_returns_none() {
    assert_eq!(sdl_scancode_to_evdev(999), None);
    assert_eq!(sdl_scancode_to_evdev(50), None); // SDL 50 is unused gap
    assert_eq!(sdl_scancode_to_evdev(0), None);
}

#[test]
fn input_event_keyboard_construction() {
    let event = InputEvent::Keyboard {
        scancode: 4,
        pressed: true,
    };
    assert_eq!(
        event,
        InputEvent::Keyboard {
            scancode: 4,
            pressed: true,
        }
    );
}

#[test]
fn input_event_mouse_move_construction() {
    let event = InputEvent::MouseMove { dx: -10, dy: 5 };
    assert_eq!(event, InputEvent::MouseMove { dx: -10, dy: 5 });
}

#[test]
fn input_event_mouse_button_construction() {
    let event = InputEvent::MouseButton {
        button: MouseButton::Left,
        pressed: true,
    };
    assert_eq!(
        event,
        InputEvent::MouseButton {
            button: MouseButton::Left,
            pressed: true,
        }
    );
}

#[test]
fn input_event_mouse_wheel_construction() {
    let event = InputEvent::MouseWheel { dx: 0, dy: 3 };
    assert_eq!(event, InputEvent::MouseWheel { dx: 0, dy: 3 });
}

#[test]
fn input_event_gamepad_axis_construction() {
    let event = InputEvent::GamepadAxis {
        pad: 0,
        axis: GamepadAxis::LeftX,
        value: -16000,
    };
    assert_eq!(
        event,
        InputEvent::GamepadAxis {
            pad: 0,
            axis: GamepadAxis::LeftX,
            value: -16000,
        }
    );
}

#[test]
fn input_event_gamepad_button_construction() {
    let event = InputEvent::GamepadButton {
        pad: 0,
        button: GamepadButton::South,
        pressed: true,
    };
    assert_eq!(
        event,
        InputEvent::GamepadButton {
            pad: 0,
            button: GamepadButton::South,
            pressed: true,
        }
    );
}

#[test]
fn mouse_button_variants() {
    let buttons = [
        MouseButton::Left,
        MouseButton::Right,
        MouseButton::Middle,
        MouseButton::Side,
        MouseButton::Extra,
    ];
    // Each variant should be distinct.
    for (i, a) in buttons.iter().enumerate() {
        for (j, b) in buttons.iter().enumerate() {
            if i == j {
                assert_eq!(a, b);
            } else {
                assert_ne!(a, b);
            }
        }
    }
}

#[test]
fn gamepad_axis_variants() {
    let axes = [
        GamepadAxis::LeftX,
        GamepadAxis::LeftY,
        GamepadAxis::RightX,
        GamepadAxis::RightY,
        GamepadAxis::TriggerLeft,
        GamepadAxis::TriggerRight,
    ];
    for (i, a) in axes.iter().enumerate() {
        for (j, b) in axes.iter().enumerate() {
            if i == j {
                assert_eq!(a, b);
            } else {
                assert_ne!(a, b);
            }
        }
    }
}

#[test]
fn gamepad_button_variants() {
    let buttons = [
        GamepadButton::South,
        GamepadButton::East,
        GamepadButton::North,
        GamepadButton::West,
        GamepadButton::Start,
        GamepadButton::Back,
        GamepadButton::Guide,
        GamepadButton::LeftStick,
        GamepadButton::RightStick,
        GamepadButton::LeftShoulder,
        GamepadButton::RightShoulder,
        GamepadButton::DPadUp,
        GamepadButton::DPadDown,
        GamepadButton::DPadLeft,
        GamepadButton::DPadRight,
    ];
    for (i, a) in buttons.iter().enumerate() {
        for (j, b) in buttons.iter().enumerate() {
            if i == j {
                assert_eq!(a, b);
            } else {
                assert_ne!(a, b);
            }
        }
    }
}

#[test]
fn scancodes_map_to_distinct_codes() {
    let mut codes: Vec<u16> = (0..300).filter_map(sdl_scancode_to_evdev).collect();
    let mapped = codes.len();
    assert!(mapped > 80);
    codes.sort_unstable();
    codes.dedup();
    assert_eq!(codes.len(), mapped);
}
