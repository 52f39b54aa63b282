//! What reaches the remote session: the same key, button, axis and motion that
//! the user moved, and nothing of what ends or steers the session.
use crate::gamepad::PadKeyView;
use crate::input::{GamepadAxis, GamepadButton, InputEvent, InputView, MouseButton};
use crate::render_input::{TrackerView, LALTMOD, LCTRLMOD, LSHIFTMOD, RALTMOD, RCTRLMOD, RSHIFTMOD};
use crate::slots::slot_of;
use crate::stream_input::{StreamAction, StreamEvent, StreamView};
use crate::ui::{Axis, Button, PointerButton};
use vstd::prelude::*;

verus! {

/// What an event forwards.
pub open spec fn forwarded(
    v: StreamView,
    slots: Seq<Option<PadKeyView>>,
    event: StreamEvent,
) -> Seq<InputView> {
    v.step(slots, event).1
}

/// A press of a mouse button forwards one press that names the same button,
/// and its release one release that does.
pub open spec fn names_button(
    v: StreamView,
    slots: Seq<Option<PadKeyView>>,
    local: PointerButton,
    remote: MouseButton,
) -> bool {
    &&& forwarded(v, slots, StreamEvent::MouseButtonDown { button: local }) == seq![
        InputView::MouseButton { button: remote, pressed: true },
    ]
    &&& forwarded(v, slots, StreamEvent::MouseButtonUp { button: local }) == seq![
        InputView::MouseButton { button: remote, pressed: false },
    ]
}

/// While captured, a mouse button is the same button in the remote session,
/// and turning the wheel turns it as far and the same way.
pub proof fn law_mouse_buttons_keep_their_name(
    v: StreamView,
    slots: Seq<Option<PadKeyView>>,
    x: i32,
    y: i32,
)
    requires
        v.captured,
    ensures
        names_button(v, slots, PointerButton::Left, MouseButton::Left),
        names_button(v, slots, PointerButton::Right, MouseButton::Right),
        names_button(v, slots, PointerButton::Middle, MouseButton::Middle),
        names_button(v, slots, PointerButton::Side, MouseButton::Side),
        names_button(v, slots, PointerButton::Extra, MouseButton::Extra),
        forwarded(v, slots, StreamEvent::MouseButtonDown { button: PointerButton::Other }).len()
            == 0,
        forwarded(v, slots, StreamEvent::MouseButtonUp { button: PointerButton::Other }).len()
            == 0,
        forwarded(v, slots, StreamEvent::MouseWheel { x, y }) == seq![
            InputView::MouseWheel { dx: x, dy: y },
        ],
{
}

/// The motion of some events, added up.
pub open spec fn motion_sum(events: Seq<StreamEvent>, across: bool) -> int
    decreases events.len(),
{
    if events.len() == 0 {
        0
    } else {
        motion_sum(events.drop_last(), across) + (match events.last() {
            StreamEvent::MouseMotion { xrel, yrel } => if across {
                xrel as int
            } else {
                yrel as int
            },
            _ => 0,
        })
    }
}

/// The state after some events.
pub open spec fn state_after(
    v: StreamView,
    slots: Seq<Option<PadKeyView>>,
    events: Seq<StreamEvent>,
) -> StreamView
    decreases events.len(),
{
    if events.len() == 0 {
        v
    } else {
        state_after(v, slots, events.drop_last()).step(slots, events.last()).0
    }
}

/// The motion of a batch gathers without loss: what waits to be forwarded is
/// what waited before and all that was moved since, across and down.
pub proof fn law_motion_adds_up(
    v: StreamView,
    slots: Seq<Option<PadKeyView>>,
    events: Seq<StreamEvent>,
)
    requires
        v.captured,
        forall|k: int|
            0 <= k < events.len() ==> (#[trigger] events[k]) is MouseMotion
                || events[k] is MouseWheel || events[k] is MouseButtonDown,
        forall|k: int|
            0 <= k <= events.len() ==> i32::MIN <= v.mouse_dx + motion_sum(
                #[trigger] events.take(k),
                true,
            ) <= i32::MAX && i32::MIN <= v.mouse_dy + motion_sum(events.take(k), false)
                <= i32::MAX,
    ensures
        state_after(v, slots, events).captured,
        state_after(v, slots, events).mouse_dx == v.mouse_dx + motion_sum(events, true),
        state_after(v, slots, events).mouse_dy == v.mouse_dy + motion_sum(events, false),
    decreases events.len(),
{
    assert(events.take(events.len() as int) =~= events);
    if events.len() > 0 {
        let front = events.drop_last();
        assert forall|k: int| 0 <= k < front.len() implies (#[trigger] front[k]) == events[k] by {}
        assert forall|k: int| 0 <= k <= front.len() implies #[trigger] front.take(k)
            == events.take(k) by {
            assert(front.take(k) =~= events.take(k));
        }
        law_motion_adds_up(v, slots, front);
        assert(events[events.len() - 1] == events.last());
    }
}

/// No motion is forwarded or gathered while input is released.
pub proof fn law_released_motion_is_lost(
    v: StreamView,
    slots: Seq<Option<PadKeyView>>,
    xrel: i32,
    yrel: i32,
)
    requires
        !v.captured,
    ensures
        v.step(slots, StreamEvent::MouseMotion { xrel, yrel }) == (
            v,
            Seq::<InputView>::empty(),
            None::<StreamAction>,
        ),
{
}

/// A key that means nothing to the client: it is no shortcut under the chord
/// of Ctrl, Alt and Shift, and not Esc alone.
pub open spec fn plain_key(code: u32, keymod: u16) -> bool {
    let chord = keymod & 0x00c0 != 0 && keymod & 0x0300 != 0 && keymod & 0x0003 != 0;
    let alone = keymod & 0x03c3 == 0;
    &&& chord ==> code != 20 && code != 22 && code != 27 && code != 29
    &&& alone ==> code != 41
}

proof fn lemma_modifier_bits(keymod: u16)
    ensures
        (keymod & LCTRLMOD != 0 || keymod & RCTRLMOD != 0) == (keymod & 0x00c0 != 0),
        (keymod & LALTMOD != 0 || keymod & RALTMOD != 0) == (keymod & 0x0300 != 0),
        (keymod & LSHIFTMOD != 0 || keymod & RSHIFTMOD != 0) == (keymod & 0x0003 != 0),
        (keymod & 0x03c3 == 0) == (keymod & 0x00c0 == 0 && keymod & 0x0300 == 0 && keymod
            & 0x0003 == 0),
{
    assert((keymod & 0x0040 != 0 || keymod & 0x0080 != 0) == (keymod & 0x00c0 != 0))
        by (bit_vector);
    assert((keymod & 0x0100 != 0 || keymod & 0x0200 != 0) == (keymod & 0x0300 != 0))
        by (bit_vector);
    assert((keymod & 0x0001 != 0 || keymod & 0x0002 != 0) == (keymod & 0x0003 != 0))
        by (bit_vector);
    assert((keymod & 0x03c3 == 0) == (keymod & 0x00c0 == 0 && keymod & 0x0300 == 0 && keymod
        & 0x0003 == 0)) by (bit_vector);
}

/// While captured, a key goes to the remote session as itself: its press as a
/// press, its release as a release, and neither when it merely repeats.
pub proof fn law_keys_keep_their_code(
    v: StreamView,
    slots: Seq<Option<PadKeyView>>,
    code: u32,
    keymod: u16,
)
    requires
        v.captured,
        plain_key(code, keymod),
    ensures
        forwarded(
            v,
            slots,
            StreamEvent::KeyDown { scancode: Some(code), keymod, repeat: false },
        ) == seq![InputView::Keyboard { scancode: code, pressed: true }],
        forwarded(v, slots, StreamEvent::KeyUp { scancode: Some(code), repeat: false }) == seq![
            InputView::Keyboard { scancode: code, pressed: false },
        ],
        forwarded(
            v,
            slots,
            StreamEvent::KeyDown { scancode: Some(code), keymod, repeat: true },
        ).len() == 0,
        v.step(
            slots,
            StreamEvent::KeyDown { scancode: Some(code), keymod, repeat: false },
        ).2 is None,
{
    lemma_modifier_bits(keymod);
}

/// What the user does with a key under a chord.
pub open spec fn chorded(
    v: StreamView,
    slots: Seq<Option<PadKeyView>>,
    code: u32,
    keymod: u16,
) -> (StreamView, Option<StreamAction>) {
    let (after, _, action) = v.step(
        slots,
        StreamEvent::KeyDown { scancode: Some(code), keymod, repeat: false },
    );
    (after, action)
}

/// With Ctrl, Alt and Shift held, on whichever side, Q ends the session, Z
/// takes the input back and gives it again, X switches fullscreen, and S
/// shows the stats and hides them again. Each does nothing else but release
/// what is held.
pub proof fn law_shortcuts_do_what_they_say(
    v: StreamView,
    slots: Seq<Option<PadKeyView>>,
    keymod: u16,
)
    requires
        keymod & 0x00c0 != 0,
        keymod & 0x0300 != 0,
        keymod & 0x0003 != 0,
    ensures
        ({
            let freed = StreamView { tracker: TrackerView::empty(), ..v };
            &&& chorded(v, slots, 20, keymod) == (freed, Some(StreamAction::Quit))
            &&& chorded(v, slots, 27, keymod) == (freed, Some(StreamAction::ToggleFullscreen))
            &&& chorded(v, slots, 29, keymod) == (
                StreamView { captured: !v.captured, ..freed },
                Some(StreamAction::ApplyCapture(!v.captured)),
            )
            &&& chorded(chorded(v, slots, 29, keymod).0, slots, 29, keymod) == (
                freed,
                Some(StreamAction::ApplyCapture(v.captured)),
            )
            &&& chorded(v, slots, 22, keymod) == (
                StreamView { stats_visible: !v.stats_visible, ..freed },
                None::<StreamAction>,
            )
            &&& chorded(chorded(v, slots, 22, keymod).0, slots, 22, keymod).0 == freed
        }),
{
    lemma_modifier_bits(keymod);
}

/// A press of a controller button forwards one press that names the button at
/// the same place of the pad in its slot, and its release one release.
pub open spec fn names_pad_button(
    v: StreamView,
    slots: Seq<Option<PadKeyView>>,
    which: u32,
    pad: u8,
    local: Button,
    remote: GamepadButton,
) -> bool {
    &&& forwarded(v, slots, StreamEvent::ControllerButtonDown { which, button: local }) == seq![
        InputView::GamepadButton { pad, button: remote, pressed: true },
    ]
    &&& forwarded(v, slots, StreamEvent::ControllerButtonUp { which, button: local }) == seq![
        InputView::GamepadButton { pad, button: remote, pressed: false },
    ]
}

/// Every button of a controller is the button of the same place on the remote
/// pad, whether or not input is captured.
pub proof fn law_pad_buttons_keep_their_place(
    v: StreamView,
    slots: Seq<Option<PadKeyView>>,
    which: u32,
    pad: u8,
)
    requires
        slot_of(slots, PadKeyView::Sdl(which)) == Some(pad as int),
    ensures
        names_pad_button(v, slots, which, pad, Button::DPadUp, GamepadButton::DPadUp),
        names_pad_button(v, slots, which, pad, Button::DPadDown, GamepadButton::DPadDown),
        names_pad_button(v, slots, which, pad, Button::DPadLeft, GamepadButton::DPadLeft),
        names_pad_button(v, slots, which, pad, Button::DPadRight, GamepadButton::DPadRight),
        names_pad_button(v, slots, which, pad, Button::A, GamepadButton::South),
        names_pad_button(v, slots, which, pad, Button::B, GamepadButton::East),
        names_pad_button(v, slots, which, pad, Button::X, GamepadButton::West),
        names_pad_button(v, slots, which, pad, Button::Y, GamepadButton::North),
        names_pad_button(v, slots, which, pad, Button::Start, GamepadButton::Start),
        names_pad_button(v, slots, which, pad, Button::Back, GamepadButton::Back),
        names_pad_button(v, slots, which, pad, Button::Guide, GamepadButton::Guide),
        names_pad_button(v, slots, which, pad, Button::LeftStick, GamepadButton::LeftStick),
        names_pad_button(v, slots, which, pad, Button::RightStick, GamepadButton::RightStick),
        names_pad_button(v, slots, which, pad, Button::LeftShoulder, GamepadButton::LeftShoulder),
        names_pad_button(
            v,
            slots,
            which,
            pad,
            Button::RightShoulder,
            GamepadButton::RightShoulder,
        ),
        forwarded(v, slots, StreamEvent::ControllerButtonDown { which, button: Button::Other }).len()
            == 0,
{
}

/// A movement of a controller's axis forwards the same value of the axis of
/// the same name.
pub open spec fn names_pad_axis(
    v: StreamView,
    slots: Seq<Option<PadKeyView>>,
    which: u32,
    pad: u8,
    local: Axis,
    remote: GamepadAxis,
    value: i16,
) -> bool {
    forwarded(v, slots, StreamEvent::ControllerAxisMotion { which, axis: local, value }) == seq![
        InputView::GamepadAxis { pad, axis: remote, value },
    ]
}

/// Every axis of a controller is the axis of the same name on the remote pad,
/// with the value it has.
pub proof fn law_pad_axes_keep_their_name(
    v: StreamView,
    slots: Seq<Option<PadKeyView>>,
    which: u32,
    pad: u8,
    value: i16,
)
    requires
        slot_of(slots, PadKeyView::Sdl(which)) == Some(pad as int),
    ensures
        names_pad_axis(v, slots, which, pad, Axis::LeftX, GamepadAxis::LeftX, value),
        names_pad_axis(v, slots, which, pad, Axis::LeftY, GamepadAxis::LeftY, value),
        names_pad_axis(v, slots, which, pad, Axis::RightX, GamepadAxis::RightX, value),
        names_pad_axis(v, slots, which, pad, Axis::RightY, GamepadAxis::RightY, value),
        names_pad_axis(v, slots, which, pad, Axis::TriggerLeft, GamepadAxis::TriggerLeft, value),
        names_pad_axis(v, slots, which, pad, Axis::TriggerRight, GamepadAxis::TriggerRight, value),
{
}

/// A controller without a slot forwards nothing.
pub proof fn law_unknown_pad_is_silent(
    v: StreamView,
    slots: Seq<Option<PadKeyView>>,
    which: u32,
    button: Button,
    axis: Axis,
    value: i16,
)
    requires
        slot_of(slots, PadKeyView::Sdl(which)) is None,
    ensures
        forwarded(v, slots, StreamEvent::ControllerButtonDown { which, button }).len() == 0,
        forwarded(v, slots, StreamEvent::ControllerButtonUp { which, button }).len() == 0,
        forwarded(v, slots, StreamEvent::ControllerAxisMotion { which, axis, value }).len() == 0,
{
}

/// The view of an event shows what the event holds.
pub proof fn law_input_shown_as_it_is(
    scancode: u32,
    dx: i32,
    dy: i32,
    button: MouseButton,
    pad: u8,
    axis: GamepadAxis,
    value: i16,
    pad_button: GamepadButton,
    pressed: bool,
)
    ensures
        (InputEvent::Keyboard { scancode, pressed })@ == (InputView::Keyboard {
            scancode,
            pressed,
        }),
        (InputEvent::MouseMove { dx, dy })@ == (InputView::MouseMove { dx, dy }),
        (InputEvent::MouseWheel { dx, dy })@ == (InputView::MouseWheel { dx, dy }),
        (InputEvent::MouseButton { button, pressed })@ == (InputView::MouseButton {
            button,
            pressed,
        }),
        (InputEvent::GamepadAxis { pad, axis, value })@ == (InputView::GamepadAxis {
            pad,
            axis,
            value,
        }),
        (InputEvent::GamepadButton { pad, button: pad_button, pressed })@ == (
        InputView::GamepadButton { pad, button: pad_button, pressed }),
        (InputEvent::GamepadConnected { pad })@ == (InputView::GamepadConnected { pad }),
        (InputEvent::GamepadDisconnected { pad })@ == (InputView::GamepadDisconnected { pad }),
{
}

} // verus!
