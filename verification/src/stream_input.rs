//! What the stream window does with each input event while a session runs.
use crate::gamepad::{PadKey, PadKeyView, SharedGamepads};
use crate::input::{InputEvent, InputView, MouseButton};
use crate::render_input::{
    gamepad_axis_of, gamepad_button_of, input_views, is_plain_escape, key_action, map_gamepad_axis,
    map_gamepad_button, map_mouse_button, mouse_button_of, no_modifier, shortcut_action, with_held,
    without_held, InputTracker, ShortcutAction, TrackerView, SCANCODE_ESCAPE,
};
use crate::slots::slot_of;
use crate::ui::{Axis, Button, PointerButton};
use vstd::prelude::*;

verus! {

/// A window event of the stream.
#[derive(Debug, Clone, Copy, PartialEq, Eq, Structural)]
pub enum StreamEvent {
    /// The window was closed.
    Quit,
    KeyDown { scancode: Option<u32>, keymod: u16, repeat: bool },
    KeyUp { scancode: Option<u32>, repeat: bool },
    MouseMotion { xrel: i32, yrel: i32 },
    MouseButtonDown { button: PointerButton },
    MouseButtonUp { button: PointerButton },
    MouseWheel { x: i32, y: i32 },
    ControllerAxisMotion { which: u32, axis: Axis, value: i16 },
    ControllerButtonDown { which: u32, button: Button },
    ControllerButtonUp { which: u32, button: Button },
    /// Any other event.
    Other,
}

/// What the owner of the window has to do.
#[derive(Debug, Clone, Copy, PartialEq, Eq, Structural)]
pub enum StreamAction {
    /// End the session.
    Quit,
    /// Grab the keyboard and hide the cursor, or give both back.
    ApplyCapture(bool),
    /// Switch between window and fullscreen.
    ToggleFullscreen,
}

/// What came of an event.
#[derive(Debug, PartialEq, Eq)]
pub struct Handled {
    /// The input to forward, in order.
    pub sent: Vec<InputEvent>,
    /// What to do locally.
    pub action: Option<StreamAction>,
}

/// The input state of a stream window.
pub struct StreamInput {
    captured: bool,
    stats_visible: bool,
    tracker: InputTracker,
    mouse_dx: i32,
    mouse_dy: i32,
}

/// What a [`StreamInput`] holds.
#[verifier::ext_equal]
pub struct StreamView {
    /// Keyboard and mouse go to the remote session.
    pub captured: bool,
    /// The stats overlay is shown.
    pub stats_visible: bool,
    /// What is held in the remote session.
    pub tracker: TrackerView,
    /// Mouse motion that has not been forwarded yet.
    pub mouse_dx: i32,
    pub mouse_dy: i32,
}

impl View for StreamInput {
    type V = StreamView;

    closed spec fn view(&self) -> StreamView {
        StreamView {
            captured: self.captured,
            stats_visible: self.stats_visible,
            tracker: self.tracker@,
            mouse_dx: self.mouse_dx,
            mouse_dy: self.mouse_dy,
        }
    }
}

/// One event to forward and nothing to do locally.
pub open spec fn sends(v: StreamView, event: InputView) -> (
    StreamView,
    Seq<InputView>,
    Option<StreamAction>,
) {
    (v, seq![event], None)
}

/// Nothing to forward.
pub open spec fn acts(v: StreamView, action: Option<StreamAction>) -> (
    StreamView,
    Seq<InputView>,
    Option<StreamAction>,
) {
    (v, Seq::empty(), action)
}

impl StreamView {
    /// A window starts captured, with nothing held.
    pub open spec fn initial() -> StreamView {
        StreamView {
            captured: true,
            stats_visible: false,
            tracker: TrackerView::empty(),
            mouse_dx: 0,
            mouse_dy: 0,
        }
    }

    /// A shortcut: everything held remotely is released first, so that the
    /// modifiers of the chord do not stay stuck.
    pub open spec fn shortcut(self, action: ShortcutAction) -> (
        StreamView,
        Seq<InputView>,
        Option<StreamAction>,
    ) {
        let freed = StreamView { tracker: TrackerView::empty(), ..self };
        let sent = self.tracker.releases();
        match action {
            ShortcutAction::Quit => (freed, sent, Some(StreamAction::Quit)),
            ShortcutAction::ToggleCapture => (
                StreamView { captured: !self.captured, ..freed },
                sent,
                Some(StreamAction::ApplyCapture(!self.captured)),
            ),
            ShortcutAction::ToggleFullscreen => (
                freed,
                sent,
                Some(StreamAction::ToggleFullscreen),
            ),
            ShortcutAction::ToggleStats => (
                StreamView { stats_visible: !self.stats_visible, ..freed },
                sent,
                None,
            ),
        }
    }

    /// One event, where `slots` are the slots of the controllers. Keyboard
    /// and mouse are forwarded only while captured; gamepads always are,
    /// since the local desktop does not compete for them. Esc ends the
    /// session, as closing the window does.
    pub open spec fn step(self, slots: Seq<Option<PadKeyView>>, event: StreamEvent) -> (
        StreamView,
        Seq<InputView>,
        Option<StreamAction>,
    ) {
        match event {
            StreamEvent::Quit => acts(self, Some(StreamAction::Quit)),
            StreamEvent::KeyDown { scancode, keymod, repeat } => match scancode {
                Some(code) => if repeat {
                    acts(self, None)
                } else {
                    match key_action(keymod, code) {
                        Some(action) => self.shortcut(action),
                        None => if self.captured {
                            sends(
                                StreamView {
                                    tracker: TrackerView {
                                        keys: with_held(self.tracker.keys, code),
                                        ..self.tracker
                                    },
                                    ..self
                                },
                                InputView::Keyboard { scancode: code, pressed: true },
                            )
                        } else {
                            acts(self, None)
                        },
                    }
                },
                None => acts(self, None),
            },
            StreamEvent::KeyUp { scancode, repeat } => match scancode {
                Some(code) => if repeat || !self.captured {
                    acts(self, None)
                } else {
                    sends(
                        StreamView {
                            tracker: TrackerView {
                                keys: without_held(self.tracker.keys, code),
                                ..self.tracker
                            },
                            ..self
                        },
                        InputView::Keyboard { scancode: code, pressed: false },
                    )
                },
                None => acts(self, None),
            },
            StreamEvent::MouseMotion { xrel, yrel } => if self.captured {
                acts(
                    StreamView {
                        mouse_dx: (self.mouse_dx + xrel) as i32,
                        mouse_dy: (self.mouse_dy + yrel) as i32,
                        ..self
                    },
                    None,
                )
            } else {
                acts(self, None)
            },
            StreamEvent::MouseButtonDown { button } => match mouse_button_of(button) {
                Some(b) => if self.captured {
                    sends(
                        StreamView {
                            tracker: TrackerView {
                                mouse_buttons: with_held(self.tracker.mouse_buttons, b),
                                ..self.tracker
                            },
                            ..self
                        },
                        InputView::MouseButton { button: b, pressed: true },
                    )
                } else {
                    acts(self, None)
                },
                None => acts(self, None),
            },
            StreamEvent::MouseButtonUp { button } => match mouse_button_of(button) {
                Some(b) => if self.captured {
                    sends(
                        StreamView {
                            tracker: TrackerView {
                                mouse_buttons: without_held(self.tracker.mouse_buttons, b),
                                ..self.tracker
                            },
                            ..self
                        },
                        InputView::MouseButton { button: b, pressed: false },
                    )
                } else {
                    acts(self, None)
                },
                None => acts(self, None),
            },
            StreamEvent::MouseWheel { x, y } => if self.captured {
                sends(self, InputView::MouseWheel { dx: x, dy: y })
            } else {
                acts(self, None)
            },
            StreamEvent::ControllerAxisMotion { which, axis, value } => match slot_of(
                slots,
                PadKeyView::Sdl(which),
            ) {
                Some(pad) => sends(
                    self,
                    InputView::GamepadAxis { pad: pad as u8, axis: gamepad_axis_of(axis), value },
                ),
                None => acts(self, None),
            },
            StreamEvent::ControllerButtonDown { which, button } => self.pad_button(
                slots,
                which,
                button,
                true,
            ),
            StreamEvent::ControllerButtonUp { which, button } => self.pad_button(
                slots,
                which,
                button,
                false,
            ),
            StreamEvent::Other => acts(self, None),
        }
    }

    /// A button of a controller.
    pub open spec fn pad_button(
        self,
        slots: Seq<Option<PadKeyView>>,
        which: u32,
        button: Button,
        pressed: bool,
    ) -> (StreamView, Seq<InputView>, Option<StreamAction>) {
        match (slot_of(slots, PadKeyView::Sdl(which)), gamepad_button_of(button)) {
            (Some(pad), Some(b)) => sends(
                self,
                InputView::GamepadButton { pad: pad as u8, button: b, pressed },
            ),
            _ => acts(self, None),
        }
    }

    /// The motion of the event still has coordinates when it is added to
    /// what has gathered; while input is released, none is added.
    pub open spec fn motion_fits(self, event: StreamEvent) -> bool {
        self.captured && event is MouseMotion ==> {
            let xrel = event->xrel;
            let yrel = event->yrel;
            &&& i32::MIN <= self.mouse_dx + xrel <= i32::MAX
            &&& i32::MIN <= self.mouse_dy + yrel <= i32::MAX
        }
    }
}

impl StreamInput {
    pub open spec fn wf(&self) -> bool {
        self@.tracker.wf()
    }

    /// A window that starts captured.
    pub fn new() -> (input: StreamInput)
        ensures
            input.wf(),
            input@ == StreamView::initial(),
    {
        StreamInput {
            captured: true,
            stats_visible: false,
            tracker: InputTracker::new(),
            mouse_dx: 0,
            mouse_dy: 0,
        }
    }

    /// Whether keyboard and mouse go to the remote session.
    pub fn captured(&self) -> (r: bool)
        ensures
            r == self@.captured,
    {
        self.captured
    }

    /// Whether the stats overlay is shown.
    pub fn stats_visible(&self) -> (r: bool)
        ensures
            r == self@.stats_visible,
    {
        self.stats_visible
    }

    /// Whether the motion of an event can be added to what has gathered.
    pub fn can_handle(&self, event: &StreamEvent) -> (r: bool)
        ensures
            r == self@.motion_fits(*event),
    {
        match event {
            StreamEvent::MouseMotion { xrel, yrel } => {
                !self.captured || (self.mouse_dx.checked_add(*xrel).is_some()
                    && self.mouse_dy.checked_add(*yrel).is_some())
            },
            _ => true,
        }
    }

    fn send(&self, event: InputEvent) -> (r: Handled)
        ensures
            input_views(r.sent@) == seq![event@],
            r.action is None,
    {
        let mut sent: Vec<InputEvent> = Vec::new();
        sent.push(event);
        assert(input_views(sent@) =~= seq![event@]);
        Handled { sent, action: None }
    }

    fn nothing(&self) -> (r: Handled)
        ensures
            input_views(r.sent@) == Seq::<InputView>::empty(),
            r.action is None,
    {
        let r = Handled { sent: Vec::new(), action: None };
        assert(input_views(r.sent@) =~= Seq::<InputView>::empty());
        r
    }

    fn run_shortcut(&mut self, action: ShortcutAction) -> (r: Handled)
        requires
            old(self).wf(),
        ensures
            final(self).wf(),
            (final(self)@, input_views(r.sent@), r.action) == old(self)@.shortcut(action),
    {
        let sent = self.tracker.release_all();
        match action {
            ShortcutAction::Quit => Handled { sent, action: Some(StreamAction::Quit) },
            ShortcutAction::ToggleCapture => {
                self.captured = !self.captured;
                Handled { sent, action: Some(StreamAction::ApplyCapture(self.captured)) }
            },
            ShortcutAction::ToggleFullscreen => Handled {
                sent,
                action: Some(StreamAction::ToggleFullscreen),
            },
            ShortcutAction::ToggleStats => {
                self.stats_visible = !self.stats_visible;
                Handled { sent, action: None }
            },
        }
    }

    fn pad_button(&self, shared: &SharedGamepads, which: u32, button: Button, pressed: bool) -> (
        r: Handled)
        requires
            shared.wf(),
        ensures
            (self@, input_views(r.sent@), r.action) == self@.pad_button(
                shared@.slots,
                which,
                button,
                pressed,
            ),
    {
        match (shared.get(&PadKey::Sdl(which)), map_gamepad_button(button)) {
            (Some(pad), Some(b)) => self.send(
                InputEvent::GamepadButton { pad, button: b, pressed },
            ),
            _ => self.nothing(),
        }
    }

    /// Handles one event of the window; controllers are known by their slot
    /// in the shared table.
    pub fn handle(&mut self, shared: &SharedGamepads, event: &StreamEvent) -> (r: Handled)
        requires
            old(self).wf(),
            shared.wf(),
            old(self)@.motion_fits(*event),
        ensures
            final(self).wf(),
            (final(self)@, input_views(r.sent@), r.action) == old(self)@.step(
                shared@.slots,
                *event,
            ),
    {
        match *event {
            StreamEvent::Quit => {
                let mut r = self.nothing();
                r.action = Some(StreamAction::Quit);
                r
            },
            StreamEvent::KeyDown { scancode, keymod, repeat } => {
                let code: u32 = match scancode {
                    Some(code) => code,
                    None => return self.nothing(),
                };
                if repeat {
                    return self.nothing();
                }
                if let Some(action) = shortcut_action(keymod, code) {
                    return self.run_shortcut(action);
                }
                if is_plain_escape(keymod, code) {
                    return self.run_shortcut(ShortcutAction::Quit);
                }
                if !self.captured {
                    return self.nothing();
                }
                self.tracker.key_down(code);
                self.send(InputEvent::Keyboard { scancode: code, pressed: true })
            },
            StreamEvent::KeyUp { scancode, repeat } => {
                let code: u32 = match scancode {
                    Some(code) => code,
                    None => return self.nothing(),
                };
                if repeat || !self.captured {
                    return self.nothing();
                }
                self.tracker.key_up(code);
                self.send(InputEvent::Keyboard { scancode: code, pressed: false })
            },
            StreamEvent::MouseMotion { xrel, yrel } => {
                if self.captured {
                    self.mouse_dx = self.mouse_dx + xrel;
                    self.mouse_dy = self.mouse_dy + yrel;
                }
                self.nothing()
            },
            StreamEvent::MouseButtonDown { button } => match map_mouse_button(button) {
                Some(b) => if self.captured {
                    self.tracker.mouse_down(b);
                    self.send(InputEvent::MouseButton { button: b, pressed: true })
                } else {
                    self.nothing()
                },
                None => self.nothing(),
            },
            StreamEvent::MouseButtonUp { button } => match map_mouse_button(button) {
                Some(b) => if self.captured {
                    self.tracker.mouse_up(b);
                    self.send(InputEvent::MouseButton { button: b, pressed: false })
                } else {
                    self.nothing()
                },
                None => self.nothing(),
            },
            StreamEvent::MouseWheel { x, y } => if self.captured {
                self.send(InputEvent::MouseWheel { dx: x, dy: y })
            } else {
                self.nothing()
            },
            StreamEvent::ControllerAxisMotion { which, axis, value } => {
                match shared.get(&PadKey::Sdl(which)) {
                    Some(pad) => self.send(
                        InputEvent::GamepadAxis { pad, axis: map_gamepad_axis(axis), value },
                    ),
                    None => self.nothing(),
                }
            },
            StreamEvent::ControllerButtonDown { which, button } => self.pad_button(
                shared,
                which,
                button,
                true,
            ),
            StreamEvent::ControllerButtonUp { which, button } => self.pad_button(
                shared,
                which,
                button,
                false,
            ),
            StreamEvent::Other => self.nothing(),
        }
    }

    /// The mouse motion that has gathered in a batch of events, as one event.
    pub fn take_motion(&mut self) -> (motion: Option<InputEvent>)
        requires
            old(self).wf(),
        ensures
            final(self).wf(),
            final(self)@ == (StreamView { mouse_dx: 0, mouse_dy: 0, ..old(self)@ }),
            match motion {
                Some(e) => (old(self)@.mouse_dx != 0 || old(self)@.mouse_dy != 0) && e@
                    == (InputView::MouseMove {
                    dx: old(self)@.mouse_dx,
                    dy: old(self)@.mouse_dy,
                }),
                None => old(self)@.mouse_dx == 0 && old(self)@.mouse_dy == 0,
            },
    {
        let dx: i32 = self.mouse_dx;
        let dy: i32 = self.mouse_dy;
        self.mouse_dx = 0;
        self.mouse_dy = 0;
        if dx != 0 || dy != 0 {
            Some(InputEvent::MouseMove { dx, dy })
        } else {
            None
        }
    }

    /// The session ends: everything still held is released, so the remote
    /// session is not left with stuck input.
    pub fn shut_down(&mut self) -> (events: Vec<InputEvent>)
        requires
            old(self).wf(),
        ensures
            final(self).wf(),
            input_views(events@) == old(self)@.tracker.releases(),
            final(self)@ == (StreamView { tracker: TrackerView::empty(), ..old(self)@ }),
    {
        self.tracker.release_all()
    }
}

/// The title of the window while input is captured.
pub const TITLE_CAPTURED: &'static str = "Stargaze";

/// The title of the window while input is released.
pub const TITLE_RELEASED: &'static str =
    "Stargaze — input released (Ctrl+Alt+Shift+Z to capture)";

/// The title of the window.
pub fn window_title(captured: bool) -> (title: &'static str)
    ensures
        title@ == (if captured {
            TITLE_CAPTURED@
        } else {
            TITLE_RELEASED@
        }),
{
    if captured {
        TITLE_CAPTURED
    } else {
        TITLE_RELEASED
    }
}

/// What is held in the remote session.
#[verifier::ext_equal]
pub struct Remote {
    pub keys: Set<u32>,
    pub buttons: Set<MouseButton>,
}

/// What is held remotely after an event reached the server.
pub open spec fn remote_step(remote: Remote, event: InputView) -> Remote {
    match event {
        InputView::Keyboard { scancode, pressed } => Remote {
            keys: if pressed {
                remote.keys.insert(scancode)
            } else {
                remote.keys.remove(scancode)
            },
            ..remote
        },
        InputView::MouseButton { button, pressed } => Remote {
            buttons: if pressed {
                remote.buttons.insert(button)
            } else {
                remote.buttons.remove(button)
            },
            ..remote
        },
        _ => remote,
    }
}

/// What is held remotely after some events reached the server in order.
pub open spec fn remote_after(remote: Remote, sent: Seq<InputView>) -> Remote
    decreases sent.len(),
{
    if sent.len() == 0 {
        remote
    } else {
        remote_step(remote_after(remote, sent.drop_last()), sent.last())
    }
}

/// The tracker knows what is held remotely.
pub open spec fn tracks(t: TrackerView, remote: Remote) -> bool {
    t.keys.to_set() == remote.keys && t.mouse_buttons.to_set() == remote.buttons
}

proof fn lemma_with_held_set<T>(held: Seq<T>, v: T)
    ensures
        with_held(held, v).to_set() == held.to_set().insert(v),
{
    if held.contains(v) {
        assert(held.to_set().insert(v) =~= held.to_set());
    } else {
        assert forall|x: T| held.push(v).contains(x) <==> held.contains(x) || x == v by {
            vstd::seq_lib::lemma_seq_contains_after_push(held, v, x);
        }
        assert(held.push(v).to_set() =~= held.to_set().insert(v));
    }
}

proof fn lemma_without_held_contains<T>(held: Seq<T>, v: T, x: T)
    ensures
        without_held(held, v).contains(x) <==> held.contains(x) && x != v,
    decreases held.len(),
{
    reveal(Seq::filter);
    if held.len() > 0 {
        let front = held.drop_last();
        lemma_without_held_contains(front, v, x);
        assert(held =~= front.push(held.last()));
        vstd::seq_lib::lemma_seq_contains_after_push(front, held.last(), x);
        vstd::seq_lib::lemma_seq_contains_after_push(without_held(front, v), held.last(), x);
    }
}

proof fn lemma_without_held_set<T>(held: Seq<T>, v: T)
    ensures
        without_held(held, v).to_set() == held.to_set().remove(v),
{
    assert forall|x: T|
        without_held(held, v).to_set().contains(x) <==> held.to_set().remove(v).contains(x) by {
        lemma_without_held_contains(held, v, x);
    }
    assert(without_held(held, v).to_set() =~= held.to_set().remove(v));
}

/// How many of the first `n` releases are of keys.
spec fn keys_among(t: TrackerView, n: int) -> int {
    if n < t.keys.len() {
        n
    } else {
        t.keys.len() as int
    }
}

/// The first `n` releases leave held what they do not release.
proof fn lemma_releases(t: TrackerView, remote: Remote, n: int)
    requires
        0 <= n <= t.releases().len(),
    ensures
        ({
            let after = remote_after(remote, t.releases().take(n));
            let nk = keys_among(t, n);
            &&& forall|k: u32| #[trigger]
                after.keys.contains(k) <==> remote.keys.contains(k) && !t.keys.take(nk).contains(k)
            &&& forall|b: MouseButton| #[trigger]
                after.buttons.contains(b) <==> remote.buttons.contains(b)
                    && !t.mouse_buttons.take(n - nk).contains(b)
        }),
    decreases n,
{
    let all = t.releases();
    let nk = keys_among(t, n);
    let after = remote_after(remote, all.take(n));
    if n > 0 {
        lemma_releases(t, remote, n - 1);
        let before = remote_after(remote, all.take(n - 1));
        assert(all.take(n).drop_last() =~= all.take(n - 1));
        assert(all.take(n).last() == all[n - 1]);
        assert(after == remote_step(before, all[n - 1]));
        if n <= t.keys.len() {
            let key = t.keys[n - 1];
            assert(all[n - 1] == InputView::Keyboard { scancode: key, pressed: false });
            assert(t.keys.take(nk) =~= t.keys.take(nk - 1).push(key));
            assert forall|k: u32| #[trigger]
                after.keys.contains(k) <==> remote.keys.contains(k) && !t.keys.take(nk).contains(
                    k,
                ) by {
                vstd::seq_lib::lemma_seq_contains_after_push(t.keys.take(nk - 1), key, k);
                assert(before.keys.contains(k) <==> remote.keys.contains(k) && !t.keys.take(
                    nk - 1,
                ).contains(k));
            }
            assert forall|b: MouseButton| #[trigger]
                after.buttons.contains(b) <==> remote.buttons.contains(b)
                    && !t.mouse_buttons.take(n - nk).contains(b) by {
                assert(before.buttons.contains(b) <==> after.buttons.contains(b));
            }
        } else {
            let m = n - nk;
            let button = t.mouse_buttons[m - 1];
            assert(all[n - 1] == InputView::MouseButton { button, pressed: false });
            assert(t.mouse_buttons.take(m) =~= t.mouse_buttons.take(m - 1).push(button));
            assert forall|b: MouseButton| #[trigger]
                after.buttons.contains(b) <==> remote.buttons.contains(b)
                    && !t.mouse_buttons.take(m).contains(b) by {
                vstd::seq_lib::lemma_seq_contains_after_push(
                    t.mouse_buttons.take(m - 1),
                    button,
                    b,
                );
                assert(before.buttons.contains(b) <==> remote.buttons.contains(b)
                    && !t.mouse_buttons.take(m - 1).contains(b));
            }
            assert forall|k: u32| #[trigger]
                after.keys.contains(k) <==> remote.keys.contains(k) && !t.keys.take(nk).contains(
                    k,
                ) by {
                assert(before.keys.contains(k) <==> after.keys.contains(k));
            }
        }
    } else {
        assert(t.keys.take(0) =~= Seq::empty());
        assert(t.mouse_buttons.take(0) =~= Seq::empty());
        assert(all.take(0) =~= Seq::empty());
    }
}

/// Releasing everything that is held leaves the remote session with nothing
/// held.
pub proof fn law_releases_leave_nothing_held(t: TrackerView, remote: Remote)
    requires
        tracks(t, remote),
    ensures
        remote_after(remote, t.releases()) == (Remote {
            keys: Set::empty(),
            buttons: Set::empty(),
        }),
{
    let all = t.releases();
    lemma_releases(t, remote, all.len() as int);
    assert(all.take(all.len() as int) =~= all);
    assert(t.keys.take(t.keys.len() as int) =~= t.keys);
    assert(t.mouse_buttons.take(t.mouse_buttons.len() as int) =~= t.mouse_buttons);
    let after = remote_after(remote, all);
    assert forall|k: u32| !#[trigger] after.keys.contains(k) by {
        assert(t.keys.to_set().contains(k) <==> t.keys.contains(k));
    }
    assert forall|b: MouseButton| !#[trigger] after.buttons.contains(b) by {
        assert(t.mouse_buttons.to_set().contains(b) <==> t.mouse_buttons.contains(b));
    }
    assert(after.keys =~= Set::empty());
    assert(after.buttons =~= Set::empty());
}

/// No input gets stuck: whatever the user does, the tracker knows exactly
/// what is held in the remote session, so that it can be released.
pub proof fn law_tracker_follows_remote(
    v: StreamView,
    slots: Seq<Option<PadKeyView>>,
    event: StreamEvent,
    remote: Remote,
)
    requires
        tracks(v.tracker, remote),
    ensures
        tracks(v.step(slots, event).0.tracker, remote_after(remote, v.step(slots, event).1)),
{
    let (after, sent, action) = v.step(slots, event);
    if sent.len() == 1 {
        assert(sent.drop_last() =~= Seq::empty());
        reveal_with_fuel(remote_after, 2);
    }
    match event {
        StreamEvent::KeyDown { scancode, keymod, repeat } => {
            if let Some(code) = scancode {
                lemma_with_held_set(v.tracker.keys, code);
                if !repeat && key_action(keymod, code) is Some {
                    law_releases_leave_nothing_held(v.tracker, remote);
                    assert(Seq::<u32>::empty().to_set() =~= Set::empty());
                    assert(Seq::<MouseButton>::empty().to_set() =~= Set::empty());
                }
            }
        },
        StreamEvent::KeyUp { scancode, repeat } => {
            if let Some(code) = scancode {
                lemma_without_held_set(v.tracker.keys, code);
            }
        },
        StreamEvent::MouseButtonDown { button } => {
            if let Some(b) = mouse_button_of(button) {
                lemma_with_held_set(v.tracker.mouse_buttons, b);
            }
        },
        StreamEvent::MouseButtonUp { button } => {
            if let Some(b) = mouse_button_of(button) {
                lemma_without_held_set(v.tracker.mouse_buttons, b);
            }
        },
        _ => {},
    }
}

/// A shortcut stays local, and so does Esc: it forwards no press.
pub proof fn law_shortcuts_stay_local(
    v: StreamView,
    slots: Seq<Option<PadKeyView>>,
    code: u32,
    keymod: u16,
)
    requires
        key_action(keymod, code) is Some,
    ensures
        ({
            let sent = v.step(
                slots,
                StreamEvent::KeyDown { scancode: Some(code), keymod, repeat: false },
            ).1;
            forall|i: int|
                0 <= i < sent.len() ==> match #[trigger] sent[i] {
                    InputView::Keyboard { scancode, pressed } => !pressed,
                    InputView::MouseButton { button, pressed } => !pressed,
                    _ => false,
                }
        }),
{
}

/// Esc alone ends the session as closing the window does, wherever input
/// goes; what is held is released.
pub proof fn law_escape_ends_session(v: StreamView, slots: Seq<Option<PadKeyView>>, keymod: u16)
    requires
        no_modifier(keymod),
    ensures
        ({
            let (after, sent, action) = v.step(
                slots,
                StreamEvent::KeyDown { scancode: Some(SCANCODE_ESCAPE), keymod, repeat: false },
            );
            &&& action == v.step(slots, StreamEvent::Quit).2
            &&& action == Some(StreamAction::Quit)
            &&& sent == v.tracker.releases()
            &&& after == (StreamView { tracker: TrackerView::empty(), ..v })
        }),
{
}

/// While input is released, keyboard and mouse stay on the local desktop.
pub proof fn law_released_input_stays_local(
    v: StreamView,
    slots: Seq<Option<PadKeyView>>,
    event: StreamEvent,
)
    requires
        !v.captured,
        v.tracker == TrackerView::empty(),
        event is KeyDown || event is KeyUp || event is MouseMotion || event is MouseButtonDown
            || event is MouseButtonUp || event is MouseWheel,
    ensures
        v.step(slots, event).1.len() == 0,
        v.step(slots, event).0.mouse_dx == v.mouse_dx,
        v.step(slots, event).0.mouse_dy == v.mouse_dy,
{
}

} // verus!
