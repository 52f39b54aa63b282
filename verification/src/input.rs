//! Input events for keyboard, mouse and gamepad forwarding.
use vstd::prelude::*;

verus! {

/// How many gamepads a session can forward.
pub const MAX_GAMEPADS: u8 = 4;

/// How many HID devices a session can forward.
pub const MAX_HID_PASSTHROUGH: u8 = 4;

/// Mouse button identifiers.
#[derive(Debug, Clone, Copy, PartialEq, Eq, Structural)]
pub enum MouseButton {
    /// Left mouse button.
    Left,
    /// Right mouse button.
    Right,
    /// Middle mouse button (scroll wheel click).
    Middle,
    /// Side button (typically "back").
    Side,
    /// Extra button (typically "forward").
    Extra,
}

/// Gamepad analog axis identifiers.
#[derive(Debug, Clone, Copy, PartialEq, Eq, Structural)]
pub enum GamepadAxis {
    /// Left stick horizontal.
    LeftX,
    /// Left stick vertical.
    LeftY,
    /// Right stick horizontal.
    RightX,
    /// Right stick vertical.
    RightY,
    /// Left trigger (analog).
    TriggerLeft,
    /// Right trigger (analog).
    TriggerRight,
}

/// Gamepad button identifiers, by direction rather than by vendor label.
#[derive(Debug, Clone, Copy, PartialEq, Eq, Structural)]
pub enum GamepadButton {
    /// Bottom face button.
    South,
    /// Right face button.
    East,
    /// Top face button.
    North,
    /// Left face button.
    West,
    /// Start / Menu / Options.
    Start,
    /// Back / View / Share.
    Back,
    /// Guide / Home.
    Guide,
    /// Left stick press (L3).
    LeftStick,
    /// Right stick press (R3).
    RightStick,
    /// Left shoulder bumper (LB / L1).
    LeftShoulder,
    /// Right shoulder bumper (RB / R1).
    RightShoulder,
    /// D-pad up.
    DPadUp,
    /// D-pad down.
    DPadDown,
    /// D-pad left.
    DPadLeft,
    /// D-pad right.
    DPadRight,
}

/// One absolute axis of a cloned gamepad.
#[derive(Debug, Clone, Copy, PartialEq, Eq, Structural)]
pub struct AbsAxisSpec {
    /// evdev code of the axis.
    pub code: u16,
    /// Current value.
    pub value: i32,
    /// Lowest value.
    pub minimum: i32,
    /// Highest value.
    pub maximum: i32,
    /// Noise filter.
    pub fuzz: i32,
    /// Dead zone.
    pub flat: i32,
    /// Units per millimeter or radian.
    pub resolution: i32,
}

/// Identity and capabilities of a physical gamepad, from which the server
/// clones it.
#[derive(Debug, Clone, PartialEq, Eq)]
pub struct GamepadDescriptor {
    /// Device name.
    pub name: String,
    /// Bus type of the device id.
    pub bus_type: u16,
    /// USB vendor id.
    pub vendor: u16,
    /// USB product id.
    pub product: u16,
    /// Version of the device id.
    pub version: u16,
    /// evdev codes of the keys.
    pub keys: Vec<u16>,
    /// The absolute axes.
    pub abs_axes: Vec<AbsAxisSpec>,
}

/// A raw evdev event of a forwarded gamepad.
#[derive(Debug, Clone, Copy, PartialEq, Eq, Structural)]
pub struct RawGamepadEvent {
    /// evdev event type.
    pub event_type: u16,
    /// evdev event code.
    pub code: u16,
    /// Value of the event.
    pub value: i32,
}

/// Identity of a forwarded HID device, from which the server rebuilds it.
#[derive(Debug, Clone, PartialEq, Eq)]
pub struct HidDeviceDescriptor {
    /// Device name.
    pub name: String,
    /// Physical path.
    pub phys: String,
    /// Unique id (serial number).
    pub uniq: String,
    /// Bus type.
    pub bus_type: u32,
    /// Vendor id.
    pub vendor: u16,
    /// Product id.
    pub product: u16,
    /// HID report descriptor.
    pub report_descriptor: Vec<u8>,
}

/// The class of a HID report.
#[derive(Debug, Clone, Copy, PartialEq, Eq, Structural)]
pub enum HidReportType {
    Feature,
    Output,
    Input,
}

/// Which host request a reply answers.
#[derive(Debug, Clone, Copy, PartialEq, Eq, Structural)]
pub enum HidReplyKind {
    GetReport,
    SetReport,
}

/// A request of the host for a forwarded HID device.
#[derive(Debug, Clone, PartialEq, Eq)]
pub enum HidHostRequest {
    /// Write an output report.
    Output {
        hid: u8,
        data: Vec<u8>,
    },
    /// Read a report.
    GetReport {
        hid: u8,
        request: u32,
        report_number: u8,
        report_type: HidReportType,
    },
    /// Write a report.
    SetReport {
        hid: u8,
        request: u32,
        report_number: u8,
        report_type: HidReportType,
        data: Vec<u8>,
    },
}

/// An input event captured on the client and forwarded to the server.
#[derive(Debug, Clone, PartialEq, Eq)]
pub enum InputEvent {
    /// Key pressed or released.
    Keyboard {
        /// SDL scancode (USB HID code).
        scancode: u32,
        /// `true` = key pressed, `false` = key released.
        pressed: bool,
    },
    /// Relative mouse movement.
    MouseMove {
        /// Horizontal delta (positive = right).
        dx: i32,
        /// Vertical delta (positive = down).
        dy: i32,
    },
    /// Mouse button pressed or released.
    MouseButton {
        /// Which button.
        button: MouseButton,
        /// `true` = pressed, `false` = released.
        pressed: bool,
    },
    /// Mouse scroll wheel movement.
    MouseWheel {
        /// Horizontal scroll (positive = right).
        dx: i32,
        /// Vertical scroll (positive = up).
        dy: i32,
    },
    /// Gamepad analog axis movement.
    GamepadAxis {
        /// Which gamepad slot.
        pad: u8,
        /// Which axis.
        axis: GamepadAxis,
        /// Axis value (-32768..32767 for sticks, 0..32767 for triggers).
        value: i16,
    },
    /// Gamepad button pressed or released.
    GamepadButton {
        /// Which gamepad slot.
        pad: u8,
        /// Which button.
        button: GamepadButton,
        /// `true` = pressed, `false` = released.
        pressed: bool,
    },
    /// A gamepad took a slot, to be emulated.
    GamepadConnected {
        pad: u8,
    },
    /// The gamepad of a slot is gone.
    GamepadDisconnected {
        pad: u8,
    },
    /// A gamepad took a slot, to be cloned.
    GamepadPassthroughConnected {
        pad: u8,
        descriptor: GamepadDescriptor,
    },
    /// Raw events of a cloned gamepad.
    GamepadPassthroughEvents {
        pad: u8,
        events: Vec<RawGamepadEvent>,
    },
    /// A HID device took a slot.
    HidPassthroughConnected {
        hid: u8,
        descriptor: HidDeviceDescriptor,
    },
    /// An input report of a HID device.
    HidPassthroughReport {
        hid: u8,
        data: Vec<u8>,
    },
    /// The answer to a host request.
    HidPassthroughReply {
        hid: u8,
        request: u32,
        kind: HidReplyKind,
        err: bool,
        data: Vec<u8>,
    },
    /// The HID device of a slot is gone.
    HidPassthroughDisconnected {
        hid: u8,
    },
}

/// What a [`GamepadDescriptor`] holds.
#[verifier::ext_equal]
pub struct GamepadDescriptorView {
    pub name: Seq<char>,
    pub bus_type: u16,
    pub vendor: u16,
    pub product: u16,
    pub version: u16,
    pub keys: Seq<u16>,
    pub abs_axes: Seq<AbsAxisSpec>,
}

impl View for GamepadDescriptor {
    type V = GamepadDescriptorView;

    open spec fn view(&self) -> GamepadDescriptorView {
        GamepadDescriptorView {
            name: self.name@,
            bus_type: self.bus_type,
            vendor: self.vendor,
            product: self.product,
            version: self.version,
            keys: self.keys@,
            abs_axes: self.abs_axes@,
        }
    }
}

/// What a [`HidDeviceDescriptor`] holds.
#[verifier::ext_equal]
pub struct HidDescriptorView {
    pub name: Seq<char>,
    pub phys: Seq<char>,
    pub uniq: Seq<char>,
    pub bus_type: u32,
    pub vendor: u16,
    pub product: u16,
    pub report_descriptor: Seq<u8>,
}

impl View for HidDeviceDescriptor {
    type V = HidDescriptorView;

    open spec fn view(&self) -> HidDescriptorView {
        HidDescriptorView {
            name: self.name@,
            phys: self.phys@,
            uniq: self.uniq@,
            bus_type: self.bus_type,
            vendor: self.vendor,
            product: self.product,
            report_descriptor: self.report_descriptor@,
        }
    }
}

/// What an [`InputEvent`] holds.
#[verifier::ext_equal]
pub enum InputView {
    Keyboard { scancode: u32, pressed: bool },
    MouseMove { dx: i32, dy: i32 },
    MouseButton { button: MouseButton, pressed: bool },
    MouseWheel { dx: i32, dy: i32 },
    GamepadAxis { pad: u8, axis: GamepadAxis, value: i16 },
    GamepadButton { pad: u8, button: GamepadButton, pressed: bool },
    GamepadConnected { pad: u8 },
    GamepadDisconnected { pad: u8 },
    GamepadPassthroughConnected { pad: u8, descriptor: GamepadDescriptorView },
    GamepadPassthroughEvents { pad: u8, events: Seq<RawGamepadEvent> },
    HidPassthroughConnected { hid: u8, descriptor: HidDescriptorView },
    HidPassthroughReport { hid: u8, data: Seq<u8> },
    HidPassthroughReply { hid: u8, request: u32, kind: HidReplyKind, err: bool, data: Seq<u8> },
    HidPassthroughDisconnected { hid: u8 },
}

impl View for InputEvent {
    type V = InputView;

    open spec fn view(&self) -> InputView {
        match self {
            InputEvent::Keyboard { scancode, pressed } => InputView::Keyboard {
                scancode: *scancode,
                pressed: *pressed,
            },
            InputEvent::MouseMove { dx, dy } => InputView::MouseMove { dx: *dx, dy: *dy },
            InputEvent::MouseButton { button, pressed } => InputView::MouseButton {
                button: *button,
                pressed: *pressed,
            },
            InputEvent::MouseWheel { dx, dy } => InputView::MouseWheel { dx: *dx, dy: *dy },
            InputEvent::GamepadAxis { pad, axis, value } => InputView::GamepadAxis {
                pad: *pad,
                axis: *axis,
                value: *value,
            },
            InputEvent::GamepadButton { pad, button, pressed } => InputView::GamepadButton {
                pad: *pad,
                button: *button,
                pressed: *pressed,
            },
            InputEvent::GamepadConnected { pad } => InputView::GamepadConnected { pad: *pad },
            InputEvent::GamepadDisconnected { pad } => InputView::GamepadDisconnected { pad: *pad },
            InputEvent::GamepadPassthroughConnected { pad, descriptor } => {
                InputView::GamepadPassthroughConnected { pad: *pad, descriptor: descriptor@ }
            },
            InputEvent::GamepadPassthroughEvents { pad, events } => {
                InputView::GamepadPassthroughEvents { pad: *pad, events: events@ }
            },
            InputEvent::HidPassthroughConnected { hid, descriptor } => {
                InputView::HidPassthroughConnected { hid: *hid, descriptor: descriptor@ }
            },
            InputEvent::HidPassthroughReport { hid, data } => InputView::HidPassthroughReport {
                hid: *hid,
                data: data@,
            },
            InputEvent::HidPassthroughReply { hid, request, kind, err, data } => {
                InputView::HidPassthroughReply {
                    hid: *hid,
                    request: *request,
                    kind: *kind,
                    err: *err,
                    data: data@,
                }
            },
            InputEvent::HidPassthroughDisconnected { hid } => {
                InputView::HidPassthroughDisconnected { hid: *hid }
            },
        }
    }
}

/// The evdev codes of the scancodes 4 to 57: letters, digits and the keys
/// for typing. 0 stands where there is none.
pub open spec fn typing_codes() -> Seq<u16> {
    seq![
        30u16, 48u16, 46u16, 32u16, 18u16, 33u16, 34u16, 35u16, 23u16, 36u16, 37u16, 38u16,
        50u16, 49u16, 24u16, 25u16, 16u16, 19u16, 31u16, 20u16, 22u16, 47u16, 17u16, 45u16,
        21u16, 44u16, 2u16, 3u16, 4u16, 5u16, 6u16, 7u16, 8u16, 9u16, 10u16, 11u16,
        28u16, 1u16, 14u16, 15u16, 57u16, 12u16, 13u16, 26u16, 27u16, 43u16, 0u16, 39u16,
        40u16, 41u16, 51u16, 52u16, 53u16, 58u16,
    ]
}

/// The evdev codes of the scancodes 58 to 99: function keys, navigation
/// and keypad.
pub open spec fn function_codes() -> Seq<u16> {
    seq![
        59u16, 60u16, 61u16, 62u16, 63u16, 64u16, 65u16, 66u16, 67u16, 68u16, 87u16, 88u16,
        99u16, 70u16, 119u16, 110u16, 102u16, 104u16, 111u16, 107u16, 109u16, 106u16, 105u16, 108u16,
        103u16, 69u16, 98u16, 55u16, 74u16, 78u16, 96u16, 79u16, 80u16, 81u16, 75u16, 76u16,
        77u16, 71u16, 72u16, 73u16, 82u16, 83u16,
    ]
}

/// The evdev codes of the scancodes 224 to 231: the modifiers.
pub open spec fn modifier_codes() -> Seq<u16> {
    seq![
        29u16, 42u16, 56u16, 125u16, 97u16, 54u16, 100u16, 126u16,
    ]
}

/// The entry of a table that starts at scancode `first`.
pub open spec fn table_entry(codes: Seq<u16>, first: int, scancode: int) -> Option<u16> {
    if first <= scancode < first + codes.len() && codes[scancode - first] != 0 {
        Some(codes[scancode - first])
    } else {
        None
    }
}

/// The evdev code of a letter, digit or typing key.
pub open spec fn typing_key(scancode: u32) -> Option<u16> {
    table_entry(typing_codes(), 4, scancode as int)
}

/// The evdev code of a function, navigation, keypad or modifier key.
pub open spec fn special_key(scancode: u32) -> Option<u16> {
    if scancode < 224 {
        table_entry(function_codes(), 58, scancode as int)
    } else {
        table_entry(modifier_codes(), 224, scancode as int)
    }
}

/// The evdev code of a key.
pub open spec fn evdev_code(scancode: u32) -> Option<u16> {
    if typing_key(scancode) is Some {
        typing_key(scancode)
    } else {
        special_key(scancode)
    }
}

/// Maps the scancodes of letters, digits and common typing keys.
fn map_alphanumeric(scancode: u32) -> (code: Option<u16>)
    ensures
        code == typing_key(scancode),
{
    match scancode {
        4 => Some(30),  // A to KEY_A
        5 => Some(48),  // B to KEY_B
        6 => Some(46),  // C to KEY_C
        7 => Some(32),  // D to KEY_D
        8 => Some(18),  // E to KEY_E
        9 => Some(33),  // F to KEY_F
        10 => Some(34),  // G to KEY_G
        11 => Some(35),  // H to KEY_H
        12 => Some(23),  // I to KEY_I
        13 => Some(36),  // J to KEY_J
        14 => Some(37),  // K to KEY_K
        15 => Some(38),  // L to KEY_L
        16 => Some(50),  // M to KEY_M
        17 => Some(49),  // N to KEY_N
        18 => Some(24),  // O to KEY_O
        19 => Some(25),  // P to KEY_P
        20 => Some(16),  // Q to KEY_Q
        21 => Some(19),  // R to KEY_R
        22 => Some(31),  // S to KEY_S
        23 => Some(20),  // T to KEY_T
        24 => Some(22),  // U to KEY_U
        25 => Some(47),  // V to KEY_V
        26 => Some(17),  // W to KEY_W
        27 => Some(45),  // X to KEY_X
        28 => Some(21),  // Y to KEY_Y
        29 => Some(44),  // Z to KEY_Z
        30 => Some(2),  // 1 to KEY_1
        31 => Some(3),  // 2 to KEY_2
        32 => Some(4),  // 3 to KEY_3
        33 => Some(5),  // 4 to KEY_4
        34 => Some(6),  // 5 to KEY_5
        35 => Some(7),  // 6 to KEY_6
        36 => Some(8),  // 7 to KEY_7
        37 => Some(9),  // 8 to KEY_8
        38 => Some(10),  // 9 to KEY_9
        39 => Some(11),  // 0 to KEY_0
        40 => Some(28),  // Return to KEY_ENTER
        41 => Some(1),  // Escape to KEY_ESC
        42 => Some(14),  // Backspace to KEY_BACKSPACE
        43 => Some(15),  // Tab to KEY_TAB
        44 => Some(57),  // Space to KEY_SPACE
        45 => Some(12),  // Minus to KEY_MINUS
        46 => Some(13),  // Equals to KEY_EQUAL
        47 => Some(26),  // LeftBracket to KEY_LEFTBRACE
        48 => Some(27),  // RightBracket to KEY_RIGHTBRACE
        49 => Some(43),  // Backslash to KEY_BACKSLASH
        51 => Some(39),  // Semicolon to KEY_SEMICOLON
        52 => Some(40),  // Apostrophe to KEY_APOSTROPHE
        53 => Some(41),  // Grave to KEY_GRAVE
        54 => Some(51),  // Comma to KEY_COMMA
        55 => Some(52),  // Period to KEY_DOT
        56 => Some(53),  // Slash to KEY_SLASH
        57 => Some(58),  // CapsLock to KEY_CAPSLOCK
        _ => None,
    }
}

/// Maps the scancodes of function keys, navigation, keypad and modifiers.
fn map_special_keys(scancode: u32) -> (code: Option<u16>)
    ensures
        code == special_key(scancode),
{
    match scancode {
        58 => Some(59),  // F1 to KEY_F1
        59 => Some(60),  // F2 to KEY_F2
        60 => Some(61),  // F3 to KEY_F3
        61 => Some(62),  // F4 to KEY_F4
        62 => Some(63),  // F5 to KEY_F5
        63 => Some(64),  // F6 to KEY_F6
        64 => Some(65),  // F7 to KEY_F7
        65 => Some(66),  // F8 to KEY_F8
        66 => Some(67),  // F9 to KEY_F9
        67 => Some(68),  // F10 to KEY_F10
        68 => Some(87),  // F11 to KEY_F11
        69 => Some(88),  // F12 to KEY_F12
        70 => Some(99),  // PrintScreen to KEY_SYSRQ
        71 => Some(70),  // ScrollLock to KEY_SCROLLLOCK
        72 => Some(119),  // Pause to KEY_PAUSE
        73 => Some(110),  // Insert to KEY_INSERT
        74 => Some(102),  // Home to KEY_HOME
        75 => Some(104),  // PageUp to KEY_PAGEUP
        76 => Some(111),  // Delete to KEY_DELETE
        77 => Some(107),  // End to KEY_END
        78 => Some(109),  // PageDown to KEY_PAGEDOWN
        79 => Some(106),  // Right to KEY_RIGHT
        80 => Some(105),  // Left to KEY_LEFT
        81 => Some(108),  // Down to KEY_DOWN
        82 => Some(103),  // Up to KEY_UP
        83 => Some(69),  // NumLock to KEY_NUMLOCK
        84 => Some(98),  // KP Divide to KEY_KPSLASH
        85 => Some(55),  // KP Multiply to KEY_KPASTERISK
        86 => Some(74),  // KP Minus to KEY_KPMINUS
        87 => Some(78),  // KP Plus to KEY_KPPLUS
        88 => Some(96),  // KP Enter to KEY_KPENTER
        89 => Some(79),  // KP 1 to KEY_KP1
        90 => Some(80),  // KP 2 to KEY_KP2
        91 => Some(81),  // KP 3 to KEY_KP3
        92 => Some(75),  // KP 4 to KEY_KP4
        93 => Some(76),  // KP 5 to KEY_KP5
        94 => Some(77),  // KP 6 to KEY_KP6
        95 => Some(71),  // KP 7 to KEY_KP7
        96 => Some(72),  // KP 8 to KEY_KP8
        97 => Some(73),  // KP 9 to KEY_KP9
        98 => Some(82),  // KP 0 to KEY_KP0
        99 => Some(83),  // KP Period to KEY_KPDOT
        224 => Some(29),  // LCtrl to KEY_LEFTCTRL
        225 => Some(42),  // LShift to KEY_LEFTSHIFT
        226 => Some(56),  // LAlt to KEY_LEFTALT
        227 => Some(125),  // LGui to KEY_LEFTMETA
        228 => Some(97),  // RCtrl to KEY_RIGHTCTRL
        229 => Some(54),  // RShift to KEY_RIGHTSHIFT
        230 => Some(100),  // RAlt to KEY_RIGHTALT
        231 => Some(126),  // RGui to KEY_RIGHTMETA
        _ => None,
    }
}

/// Maps an SDL scancode (USB HID usage code) to a Linux evdev keycode, or to
/// none for an unmapped scancode.
pub fn sdl_scancode_to_evdev(scancode: u32) -> (code: Option<u16>)
    ensures
        code == evdev_code(scancode),
{
    match map_alphanumeric(scancode) {
        Some(code) => Some(code),
        None => map_special_keys(scancode),
    }
}

/// The scancode of each evdev code, 0 where no key has it.
pub open spec fn scancodes() -> Seq<u32> {
    seq![
        0u32, 41u32, 30u32, 31u32, 32u32, 33u32, 34u32, 35u32, 36u32, 37u32, 38u32, 39u32,
        45u32, 46u32, 42u32, 43u32, 20u32, 26u32, 8u32, 21u32, 23u32, 28u32, 24u32, 12u32,
        18u32, 19u32, 47u32, 48u32, 40u32, 224u32, 4u32, 22u32, 7u32, 9u32, 10u32, 11u32,
        13u32, 14u32, 15u32, 51u32, 52u32, 53u32, 225u32, 49u32, 29u32, 27u32, 6u32, 25u32,
        5u32, 17u32, 16u32, 54u32, 55u32, 56u32, 229u32, 85u32, 226u32, 44u32, 57u32, 58u32,
        59u32, 60u32, 61u32, 62u32, 63u32, 64u32, 65u32, 66u32, 67u32, 83u32, 71u32, 95u32,
        96u32, 97u32, 86u32, 92u32, 93u32, 94u32, 87u32, 89u32, 90u32, 91u32, 98u32, 99u32,
        0u32, 0u32, 0u32, 68u32, 69u32, 0u32, 0u32, 0u32, 0u32, 0u32, 0u32, 0u32,
        88u32, 228u32, 84u32, 70u32, 230u32, 0u32, 74u32, 82u32, 75u32, 80u32, 79u32, 77u32,
        81u32, 78u32, 73u32, 76u32, 0u32, 0u32, 0u32, 0u32, 0u32, 0u32, 0u32, 72u32,
        0u32, 0u32, 0u32, 0u32, 0u32, 227u32, 231u32,
    ]
}

/// No two keys share a code: each code tells its key.
pub proof fn law_codes_distinct(scancode: u32)
    requires
        evdev_code(scancode) is Some,
    ensures
        evdev_code(scancode)->0 < scancodes().len(),
        scancodes()[evdev_code(scancode)->0 as int] == scancode,
{
}

} // verus!
