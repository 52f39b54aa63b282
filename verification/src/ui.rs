//! From device events to navigation events: key maps, held-stick repeat, and
//! suppression of presses that arrive more than once.
use crate::clock::Clock;
use crate::widgets::{same_nav, NavEvent, NavView};
use vstd::prelude::*;

verus! {

/// Left-stick deflection that counts as a navigation press.
pub const STICK_THRESHOLD: i16 = 8000;

/// Delay before a held stick direction starts repeating, in nanoseconds.
pub const STICK_REPEAT_DELAY: u64 = 400_000_000;

/// Interval between repeats while the stick stays held, in nanoseconds.
pub const STICK_REPEAT_INTERVAL: u64 = 130_000_000;

/// Window in which the same event from a different device counts as an echo
/// of one physical press, in nanoseconds.
pub const CROSS_DEVICE_DEDUP_WINDOW: u64 = 50_000_000;

/// The keys that the launcher knows.
#[derive(Debug, Clone, Copy, PartialEq, Eq, Structural)]
pub enum Keycode {
    Up,
    Down,
    Left,
    Right,
    Return,
    KpEnter,
    Escape,
    Delete,
    E,
    Backspace,
    /// Any other key.
    Other,
}

/// The buttons of a game controller.
#[derive(Debug, Clone, Copy, PartialEq, Eq, Structural)]
pub enum Button {
    A,
    B,
    X,
    Y,
    Back,
    Guide,
    Start,
    LeftStick,
    RightStick,
    LeftShoulder,
    RightShoulder,
    DPadUp,
    DPadDown,
    DPadLeft,
    DPadRight,
    /// Any other button.
    Other,
}

/// The axes of a game controller.
#[derive(Debug, Clone, Copy, PartialEq, Eq, Structural)]
pub enum Axis {
    LeftX,
    LeftY,
    RightX,
    RightY,
    TriggerLeft,
    TriggerRight,
}

/// The buttons of a mouse.
#[derive(Debug, Clone, Copy, PartialEq, Eq, Structural)]
pub enum PointerButton {
    Left,
    Right,
    Middle,
    Side,
    Extra,
    /// Any other button.
    Other,
}

/// A device event as the launcher sees it.
#[derive(Debug, PartialEq, Eq)]
pub enum Event {
    KeyDown { keycode: Option<Keycode> },
    TextInput { text: String },
    ControllerButtonDown { which: u32, button: Button },
    ControllerAxisMotion { which: u32, axis: Axis, value: i16 },
    MouseMotion { x: i32, y: i32 },
    MouseButtonDown { mouse_btn: PointerButton, x: i32, y: i32 },
    /// Any other event.
    Other,
}

/// Stick direction currently held.
#[derive(Debug, Clone, Copy, PartialEq, Eq, Structural)]
pub enum StickDir {
    Up,
    Down,
    Left,
    Right,
}

impl StickDir {
    pub open spec fn nav_view(self) -> NavView {
        match self {
            StickDir::Up => NavView::Up,
            StickDir::Down => NavView::Down,
            StickDir::Left => NavView::Left,
            StickDir::Right => NavView::Right,
        }
    }

    /// The press that the direction stands for.
    pub fn nav(self) -> (r: NavEvent)
        ensures
            r@ == self.nav_view(),
    {
        match self {
            StickDir::Up => NavEvent::Up,
            StickDir::Down => NavEvent::Down,
            StickDir::Left => NavEvent::Left,
            StickDir::Right => NavEvent::Right,
        }
    }
}

/// The device a button-like event came from.
#[derive(Debug, Clone, Copy, PartialEq, Eq, Structural)]
pub enum NavSource {
    Keyboard,
    Pad(u32),
}

/// What an [`InputMapper`] remembers.
#[verifier::ext_equal]
pub struct MapperView {
    pub stick_x: i16,
    pub stick_y: i16,
    /// The held direction, and when it repeats next.
    pub held: Option<(StickDir, u64)>,
    /// The last button-like event, where it came from and when.
    pub last_nav: Option<(NavView, NavSource, u64)>,
}

/// The event of a key.
pub open spec fn key_nav(key: Keycode) -> Option<NavView> {
    match key {
        Keycode::Up => Some(NavView::Up),
        Keycode::Down => Some(NavView::Down),
        Keycode::Left => Some(NavView::Left),
        Keycode::Right => Some(NavView::Right),
        Keycode::Return => Some(NavView::Activate),
        Keycode::KpEnter => Some(NavView::Activate),
        Keycode::Escape => Some(NavView::Back),
        Keycode::Delete => Some(NavView::Delete),
        Keycode::E => Some(NavView::Edit),
        Keycode::Backspace => Some(NavView::Backspace),
        Keycode::Other => None,
    }
}

/// The event of a controller button.
pub open spec fn button_nav(button: Button) -> Option<NavView> {
    match button {
        Button::DPadUp => Some(NavView::Up),
        Button::DPadDown => Some(NavView::Down),
        Button::DPadLeft => Some(NavView::Left),
        Button::DPadRight => Some(NavView::Right),
        Button::A => Some(NavView::Activate),
        Button::B => Some(NavView::Back),
        Button::Y => Some(NavView::Delete),
        Button::X => Some(NavView::Edit),
        Button::Start => Some(NavView::ConnectShortcut),
        _ => None,
    }
}

/// The view of an event that may be none.
pub open spec fn nav_view(nav: Option<NavEvent>) -> Option<NavView> {
    match nav {
        Some(n) => Some(n@),
        None => None,
    }
}

/// Nanoseconds from `since` to `now`; none if `now` is the earlier one.
pub open spec fn elapsed_ns(since: u64, now: u64) -> int {
    if now >= since {
        now - since
    } else {
        0
    }
}

/// A time later by `delay`, held at the end of time.
pub open spec fn later(now: u64, delay: u64) -> u64 {
    if now + delay <= u64::MAX {
        (now + delay) as u64
    } else {
        u64::MAX
    }
}

/// The size of a deflection.
pub open spec fn deflection(v: i16) -> int {
    if v < 0 {
        -v
    } else {
        v as int
    }
}

/// The direction that a stick points in: none near the center, else the one
/// of the larger deflection, vertical if both are the same.
pub open spec fn stick_direction(x: i16, y: i16) -> Option<StickDir> {
    if deflection(x) < STICK_THRESHOLD && deflection(y) < STICK_THRESHOLD {
        None
    } else if deflection(y) >= deflection(x) {
        if y < 0 {
            Some(StickDir::Up)
        } else {
            Some(StickDir::Down)
        }
    } else if x < 0 {
        Some(StickDir::Left)
    } else {
        Some(StickDir::Right)
    }
}

impl MapperView {
    pub open spec fn initial() -> MapperView {
        MapperView { stick_x: 0, stick_y: 0, held: None, last_nav: None }
    }

    /// The event is an echo: the same as the last one, from another device,
    /// within the window.
    pub open spec fn is_echo(self, nav: NavView, source: NavSource, now: u64) -> bool {
        match self.last_nav {
            Some((last, last_source, at)) => last == nav && last_source != source && elapsed_ns(
                at,
                now,
            ) < CROSS_DEVICE_DEDUP_WINDOW,
            None => false,
        }
    }

    /// A button-like event: dropped if it is an echo, else remembered.
    pub open spec fn pressed(self, nav: NavView, source: NavSource, now: u64) -> (
        MapperView,
        Option<NavView>,
    ) {
        if self.is_echo(nav, source, now) {
            (self, None)
        } else {
            (MapperView { last_nav: Some((nav, source, now)), ..self }, Some(nav))
        }
    }

    /// The stick moved: a new direction is a press and repeats after a
    /// delay, the center releases.
    pub open spec fn stick_moved(self, now: u64) -> (MapperView, Option<NavView>) {
        match stick_direction(self.stick_x, self.stick_y) {
            None => (MapperView { held: None, ..self }, None),
            Some(dir) => {
                let same = match self.held {
                    Some((d, _)) => d == dir,
                    None => false,
                };
                if same {
                    (self, None)
                } else {
                    (
                        MapperView { held: Some((dir, later(now, STICK_REPEAT_DELAY))), ..self },
                        Some(dir.nav_view()),
                    )
                }
            },
        }
    }

    /// Time passes: a held direction repeats when it is due.
    pub open spec fn ticked(self, now: u64) -> (MapperView, Option<NavView>) {
        match self.held {
            Some((dir, due)) => if now < due {
                (self, None)
            } else {
                (
                    MapperView { held: Some((dir, later(now, STICK_REPEAT_INTERVAL))), ..self },
                    Some(dir.nav_view()),
                )
            },
            None => (self, None),
        }
    }

    /// One device event.
    pub open spec fn mapped(self, event: Event, now: u64) -> (MapperView, Option<NavView>) {
        match event {
            Event::KeyDown { keycode } => match keycode {
                Some(key) => match key_nav(key) {
                    Some(nav) => self.pressed(nav, NavSource::Keyboard, now),
                    None => (self, None),
                },
                None => (self, None),
            },
            Event::TextInput { text } => (self, Some(NavView::Text(text@))),
            Event::ControllerButtonDown { which, button } => match button_nav(button) {
                Some(nav) => self.pressed(nav, NavSource::Pad(which), now),
                None => (self, None),
            },
            Event::ControllerAxisMotion { which, axis, value } => match axis {
                Axis::LeftX => (MapperView { stick_x: value, ..self }).stick_moved(now),
                Axis::LeftY => (MapperView { stick_y: value, ..self }).stick_moved(now),
                _ => (self, None),
            },
            Event::MouseMotion { x, y } => (self, Some(NavView::PointerMove(x, y))),
            Event::MouseButtonDown { mouse_btn, x, y } => if mouse_btn == PointerButton::Left {
                (self, Some(NavView::PointerClick(x, y)))
            } else {
                (self, None)
            },
            Event::Other => (self, None),
        }
    }
}

/// Maps device events to [`NavEvent`]s.
pub struct InputMapper {
    stick_x: i16,
    stick_y: i16,
    held: Option<(StickDir, u64)>,
    last_nav: Option<(NavEvent, NavSource, u64)>,
    clock: Clock,
}

impl View for InputMapper {
    type V = MapperView;

    closed spec fn view(&self) -> MapperView {
        MapperView {
            stick_x: self.stick_x,
            stick_y: self.stick_y,
            held: self.held,
            last_nav: match self.last_nav {
                Some((nav, source, at)) => Some((nav@, source, at)),
                None => None,
            },
        }
    }
}

impl Default for InputMapper {
    fn default() -> (mapper: InputMapper)
        ensures
            mapper@ == MapperView::initial(),
    {
        InputMapper::new()
    }
}

fn time_since(since: u64, now: u64) -> (ns: u64)
    ensures
        ns == elapsed_ns(since, now),
{
    if now >= since {
        now - since
    } else {
        0
    }
}

fn time_later(now: u64, delay: u64) -> (t: u64)
    ensures
        t == later(now, delay),
{
    now.saturating_add(delay)
}

impl InputMapper {
    /// A mapper with centered stick state and a clock of its own.
    pub fn new() -> (mapper: InputMapper)
        ensures
            mapper@ == MapperView::initial(),
    {
        InputMapper { stick_x: 0, stick_y: 0, held: None, last_nav: None, clock: Clock::start() }
    }

    /// Maps an event that arrived at `now`; `None` for events the UI does
    /// not consume.
    pub fn map_at(&mut self, event: &Event, now: u64) -> (nav: Option<NavEvent>)
        ensures
            (final(self)@, nav_view(nav)) == old(self)@.mapped(*event, now),
    {
        match event {
            Event::KeyDown { keycode } => {
                let nav = match *keycode {
                    Some(Keycode::Up) => NavEvent::Up,
                    Some(Keycode::Down) => NavEvent::Down,
                    Some(Keycode::Left) => NavEvent::Left,
                    Some(Keycode::Right) => NavEvent::Right,
                    Some(Keycode::Return) => NavEvent::Activate,
                    Some(Keycode::KpEnter) => NavEvent::Activate,
                    Some(Keycode::Escape) => NavEvent::Back,
                    Some(Keycode::Delete) => NavEvent::Delete,
                    Some(Keycode::E) => NavEvent::Edit,
                    Some(Keycode::Backspace) => NavEvent::Backspace,
                    _ => return None,
                };
                self.dedup(nav, NavSource::Keyboard, now)
            },
            Event::TextInput { text } => Some(NavEvent::Text(text.clone())),
            Event::ControllerButtonDown { which, button } => {
                let nav = match *button {
                    Button::DPadUp => NavEvent::Up,
                    Button::DPadDown => NavEvent::Down,
                    Button::DPadLeft => NavEvent::Left,
                    Button::DPadRight => NavEvent::Right,
                    Button::A => NavEvent::Activate,
                    Button::B => NavEvent::Back,
                    Button::Y => NavEvent::Delete,
                    Button::X => NavEvent::Edit,
                    Button::Start => NavEvent::ConnectShortcut,
                    _ => return None,
                };
                self.dedup(nav, NavSource::Pad(*which), now)
            },
            Event::ControllerAxisMotion { which: _, axis, value } => {
                match *axis {
                    Axis::LeftX => {
                        self.stick_x = *value;
                    },
                    Axis::LeftY => {
                        self.stick_y = *value;
                    },
                    _ => return None,
                }
                self.update_stick(now)
            },
            Event::MouseMotion { x, y } => Some(NavEvent::PointerMove(*x, *y)),
            Event::MouseButtonDown { mouse_btn, x, y } => match *mouse_btn {
                PointerButton::Left => Some(NavEvent::PointerClick(*x, *y)),
                _ => None,
            },
            Event::Other => None,
        }
    }

    /// Maps one event as it arrives.
    pub fn map(&mut self, event: &Event) -> (nav: Option<NavEvent>)
        ensures
            exists|now: u64|
                (final(self)@, nav_view(nav)) == #[trigger] old(self)@.mapped(*event, now),
    {
        let now: u64 = self.clock.now();
        self.map_at(event, now)
    }

    /// Suppresses the same event arriving from a different device within the
    /// window: one physical press echoed by a virtual gamepad or by
    /// synthesized keys. Repeats on the same device pass.
    fn dedup(&mut self, nav: NavEvent, source: NavSource, now: u64) -> (r: Option<NavEvent>)
        ensures
            (final(self)@, nav_view(r)) == old(self)@.pressed(nav@, source, now),
    {
        if let Some((last, last_source, at)) = &self.last_nav {
            if same_nav(last, &nav) && *last_source != source && time_since(*at, now)
                < CROSS_DEVICE_DEDUP_WINDOW {
                return None;
            }
        }
        self.last_nav = Some((nav.clone(), source, now));
        Some(nav)
    }

    /// Emits the stick repeat that is due at `now`.
    pub fn tick_at(&mut self, now: u64) -> (nav: Option<NavEvent>)
        ensures
            (final(self)@, nav_view(nav)) == old(self)@.ticked(now),
    {
        match self.held {
            Some((dir, due)) => {
                if now < due {
                    return None;
                }
                self.held = Some((dir, time_later(now, STICK_REPEAT_INTERVAL)));
                Some(dir.nav())
            },
            None => None,
        }
    }

    /// Emits stick repeats; call once per frame.
    pub fn tick(&mut self) -> (nav: Option<NavEvent>)
        ensures
            exists|now: u64| (final(self)@, nav_view(nav)) == #[trigger] old(self)@.ticked(now),
    {
        let now: u64 = self.clock.now();
        self.tick_at(now)
    }

    /// Re-evaluates the held direction after stick movement, emitting the
    /// initial press on a direction change.
    fn update_stick(&mut self, now: u64) -> (nav: Option<NavEvent>)
        ensures
            (final(self)@, nav_view(nav)) == old(self)@.stick_moved(now),
    {
        match InputMapper::dominant_dir(self.stick_x, self.stick_y) {
            None => {
                self.held = None;
                None
            },
            Some(dir) => {
                if let Some((held, _due)) = self.held {
                    if held == dir {
                        return None;
                    }
                }
                self.held = Some((dir, time_later(now, STICK_REPEAT_DELAY)));
                Some(dir.nav())
            },
        }
    }

    /// The direction that a stick points in, if any.
    pub fn dominant_dir(x: i16, y: i16) -> (dir: Option<StickDir>)
        ensures
            dir == stick_direction(x, y),
    {
        let dx: i32 = if x < 0 {
            -(x as i32)
        } else {
            x as i32
        };
        let dy: i32 = if y < 0 {
            -(y as i32)
        } else {
            y as i32
        };
        if dx < STICK_THRESHOLD as i32 && dy < STICK_THRESHOLD as i32 {
            return None;
        }
        Some(
            if dy >= dx {
                if y < 0 {
                    StickDir::Up
                } else {
                    StickDir::Down
                }
            } else if x < 0 {
                StickDir::Left
            } else {
                StickDir::Right
            },
        )
    }
}

/// Presses on one device all pass: nothing is an echo of itself.
pub proof fn law_same_device_passes(m: MapperView, nav: NavView, source: NavSource, now: u64)
    requires
        m.last_nav matches Some((last, last_source, at)) ==> last_source == source,
    ensures
        m.pressed(nav, source, now).1 == Some(nav),
{
}

/// A press echoed by another device within the window is dropped, and the
/// echo leaves the memory of the press as it was, so that further echoes
/// are dropped too.
pub proof fn law_echo_dropped(
    m: MapperView,
    nav: NavView,
    source: NavSource,
    other: NavSource,
    at: u64,
    now: u64,
)
    requires
        !m.is_echo(nav, source, at),
        other != source,
        at <= now < at + CROSS_DEVICE_DEDUP_WINDOW,
    ensures
        ({
            let after = m.pressed(nav, source, at).0;
            after.pressed(nav, other, now) == (after, None::<NavView>)
        }),
{
}

/// Once the window has passed, a press on another device is a press.
pub proof fn law_press_after_window_passes(
    m: MapperView,
    nav: NavView,
    source: NavSource,
    now: u64,
)
    requires
        m.last_nav matches Some((last, last_source, at)) ==> at + CROSS_DEVICE_DEDUP_WINDOW <= now,
    ensures
        m.pressed(nav, source, now).1 == Some(nav),
{
}

/// A direction that stays held is pressed once, and repeats only when the
/// delay has passed.
pub proof fn law_held_direction_pressed_once(m: MapperView, dir: StickDir, at: u64, now: u64)
    requires
        stick_direction(m.stick_x, m.stick_y) == Some(dir),
        m.held matches Some((d, due)) ==> d != dir,
        at <= now < at + STICK_REPEAT_DELAY,
        at + STICK_REPEAT_DELAY <= u64::MAX,
    ensures
        m.stick_moved(at).1 == Some(dir.nav_view()),
        m.stick_moved(at).0.stick_moved(now).1 is None,
        m.stick_moved(at).0.ticked(now).1 is None,
        m.stick_moved(at).0.ticked((at + STICK_REPEAT_DELAY) as u64).1 == Some(dir.nav_view()),
{
}

} // verus!
