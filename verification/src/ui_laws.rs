//! What the launcher makes of keys, buttons, sticks and the pointer.
use crate::ui::{
    stick_direction, Axis, Button, Event, Keycode, MapperView, NavSource, PointerButton, StickDir,
};
use crate::widgets::NavView;
use vstd::prelude::*;

verus! {

/// What a key does.
pub open spec fn key_does(m: MapperView, key: Keycode, now: u64) -> Option<NavView> {
    m.mapped(Event::KeyDown { keycode: Some(key) }, now).1
}

/// Arrow keys move that way, Enter activates, Escape goes back, Delete deletes,
/// E edits, Backspace erases, and no other key does anything.
pub proof fn law_keys_do_what_they_say(m: MapperView, now: u64)
    requires
        m.last_nav is None,
    ensures
        key_does(m, Keycode::Up, now) == Some(NavView::Up),
        key_does(m, Keycode::Down, now) == Some(NavView::Down),
        key_does(m, Keycode::Left, now) == Some(NavView::Left),
        key_does(m, Keycode::Right, now) == Some(NavView::Right),
        key_does(m, Keycode::Return, now) == Some(NavView::Activate),
        key_does(m, Keycode::KpEnter, now) == Some(NavView::Activate),
        key_does(m, Keycode::Escape, now) == Some(NavView::Back),
        key_does(m, Keycode::Delete, now) == Some(NavView::Delete),
        key_does(m, Keycode::E, now) == Some(NavView::Edit),
        key_does(m, Keycode::Backspace, now) == Some(NavView::Backspace),
        key_does(m, Keycode::Other, now) is None,
        m.mapped(Event::KeyDown { keycode: None }, now).1 is None,
{
}

/// What a button of a controller does.
pub open spec fn button_does(m: MapperView, which: u32, button: Button, now: u64) -> Option<
    NavView,
> {
    m.mapped(Event::ControllerButtonDown { which, button }, now).1
}

/// The D-pad moves that way, A activates, B goes back, X edits, Y deletes,
/// Start connects, and no other button does anything.
pub proof fn law_buttons_do_what_they_say(m: MapperView, which: u32, now: u64)
    requires
        m.last_nav is None,
    ensures
        button_does(m, which, Button::DPadUp, now) == Some(NavView::Up),
        button_does(m, which, Button::DPadDown, now) == Some(NavView::Down),
        button_does(m, which, Button::DPadLeft, now) == Some(NavView::Left),
        button_does(m, which, Button::DPadRight, now) == Some(NavView::Right),
        button_does(m, which, Button::A, now) == Some(NavView::Activate),
        button_does(m, which, Button::B, now) == Some(NavView::Back),
        button_does(m, which, Button::X, now) == Some(NavView::Edit),
        button_does(m, which, Button::Y, now) == Some(NavView::Delete),
        button_does(m, which, Button::Start, now) == Some(NavView::ConnectShortcut),
        button_does(m, which, Button::Back, now) is None,
        button_does(m, which, Button::Guide, now) is None,
        button_does(m, which, Button::LeftStick, now) is None,
        button_does(m, which, Button::RightStick, now) is None,
        button_does(m, which, Button::LeftShoulder, now) is None,
        button_does(m, which, Button::RightShoulder, now) is None,
        button_does(m, which, Button::Other, now) is None,
{
}

/// One press that a key and a controller, or two controllers, report within 50
/// ms counts once; behind that, and on one device, every press counts.
pub proof fn law_mirrored_press_counts_once(
    m: MapperView,
    which: u32,
    other: u32,
    at: u64,
    now: u64,
)
    requires
        m.last_nav is None,
        which != other,
        at <= now,
    ensures
        ({
            let once = m.mapped(Event::ControllerButtonDown { which, button: Button::A }, at).0;
            &&& button_does(once, other, Button::A, now) is None <==> now - at < 50_000_000
            &&& key_does(once, Keycode::Return, now) is None <==> now - at < 50_000_000
            &&& button_does(once, which, Button::A, now) == Some(NavView::Activate)
            &&& button_does(once, other, Button::B, now) == Some(NavView::Back)
        }),
{
    assert(NavSource::Pad(which) != NavSource::Pad(other));
    assert(NavSource::Pad(which) != NavSource::Keyboard);
}

/// The stick points where it is moved furthest, from a quarter of its way on;
/// up and down win over left and right.
pub proof fn law_stick_points_where_it_is(x: i16, y: i16)
    ensures
        stick_direction(x, y) == Some(StickDir::Up) <==> y <= -8000 && y <= x <= -y,
        stick_direction(x, y) == Some(StickDir::Down) <==> y >= 8000 && -y <= x <= y,
        stick_direction(x, y) == Some(StickDir::Left) <==> x <= -8000 && x < y < -x,
        stick_direction(x, y) == Some(StickDir::Right) <==> x >= 8000 && -x < y < x,
        stick_direction(x, y) is None <==> -8000 < x < 8000 && -8000 < y < 8000,
{
}

/// Only the left stick moves the focus: its two axes are followed each for
/// itself, and a direction is that direction.
pub proof fn law_left_stick_moves(m: MapperView, which: u32, value: i16, now: u64)
    requires
        m.stick_x == 0 && m.stick_y == 0,
        m.held is None,
    ensures
        ({
            let (across, went) = m.mapped(
                Event::ControllerAxisMotion { which, axis: Axis::LeftX, value },
                now,
            );
            let (along, fell) = m.mapped(
                Event::ControllerAxisMotion { which, axis: Axis::LeftY, value },
                now,
            );
            &&& across.stick_x == value && across.stick_y == 0
            &&& along.stick_y == value && along.stick_x == 0
            &&& value >= 8000 ==> went == Some(NavView::Right) && fell == Some(NavView::Down)
            &&& value <= -8000 ==> went == Some(NavView::Left) && fell == Some(NavView::Up)
            &&& -8000 < value < 8000 ==> went is None && fell is None
            &&& m.mapped(Event::ControllerAxisMotion { which, axis: Axis::RightX, value }, now) == (
                m,
                None::<NavView>,
            )
            &&& m.mapped(Event::ControllerAxisMotion { which, axis: Axis::RightY, value }, now) == (
                m,
                None::<NavView>,
            )
        }),
{
}

/// A stick that stays where it is repeats its direction 400 ms after it was
/// moved there and every 130 ms from then on.
pub proof fn law_stick_repeats(m: MapperView, dir: StickDir, at: u64, late: u64)
    requires
        stick_direction(m.stick_x, m.stick_y) == Some(dir),
        m.held is None,
        at + 1_000_000_000 <= u64::MAX,
        late <= 100_000_000,
    ensures
        ({
            let held = m.stick_moved(at).0;
            let first = (at + 400_000_000 + late) as u64;
            let again = held.ticked(first).0;
            &&& m.stick_moved(at).1 == Some(dir.nav_view())
            &&& held.ticked((at + 399_999_999) as u64).1 is None
            &&& held.ticked(first).1 == Some(dir.nav_view())
            &&& again.ticked((first + 129_999_999) as u64).1 is None
            &&& again.ticked((first + 130_000_000) as u64).1 == Some(dir.nav_view())
        }),
{
}

/// The directions of the stick are those of the arrow keys.
pub proof fn law_directions_are_named(m: MapperView)
    ensures
        StickDir::Up.nav_view() == NavView::Up,
        StickDir::Down.nav_view() == NavView::Down,
        StickDir::Left.nav_view() == NavView::Left,
        StickDir::Right.nav_view() == NavView::Right,
{
}

/// The pointer is where it is, and only its left button clicks; text is taken
/// as it is.
pub proof fn law_pointer_and_text_pass(m: MapperView, x: i32, y: i32, text: String, now: u64)
    ensures
        m.mapped(Event::MouseMotion { x, y }, now) == (m, Some(NavView::PointerMove(x, y))),
        m.mapped(Event::MouseButtonDown { mouse_btn: PointerButton::Left, x, y }, now) == (
            m,
            Some(NavView::PointerClick(x, y)),
        ),
        m.mapped(Event::MouseButtonDown { mouse_btn: PointerButton::Right, x, y }, now) == (
            m,
            None::<NavView>,
        ),
        m.mapped(Event::MouseButtonDown { mouse_btn: PointerButton::Middle, x, y }, now) == (
            m,
            None::<NavView>,
        ),
        m.mapped(Event::TextInput { text }, now) == (m, Some(NavView::Text(text@))),
{
}

} // verus!
