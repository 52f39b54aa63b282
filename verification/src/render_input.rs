//! Input handling of the stream window: shortcuts, gamepad slots, and the
//! inputs that are held in the remote session.
use crate::input::{
    GamepadAxis, GamepadButton, InputEvent, InputView, MouseButton, MAX_GAMEPADS,
};
use crate::slots::{
    allocated, keys_distinct, lemma_first_where, lemma_first_where_at,
    lemma_slots_stay_distinct, released, slot_number, slot_of,
};
use crate::ui::{Axis, Button, PointerButton};
use vstd::prelude::*;

verus! {

/// Modifier bit of the left Shift key.
pub const LSHIFTMOD: u16 = 0x0001;

/// Modifier bit of the right Shift key.
pub const RSHIFTMOD: u16 = 0x0002;

/// Modifier bit of the left Ctrl key.
pub const LCTRLMOD: u16 = 0x0040;

/// Modifier bit of the right Ctrl key.
pub const RCTRLMOD: u16 = 0x0080;

/// Modifier bit of the left Alt key.
pub const LALTMOD: u16 = 0x0100;

/// Modifier bit of the right Alt key.
pub const RALTMOD: u16 = 0x0200;

/// Scancode of the Q key.
pub const SCANCODE_Q: u32 = 20;

/// Scancode of the S key.
pub const SCANCODE_S: u32 = 22;

/// Scancode of the X key.
pub const SCANCODE_X: u32 = 27;

/// Scancode of the Z key.
pub const SCANCODE_Z: u32 = 29;

/// Scancode of the Esc key.
pub const SCANCODE_ESCAPE: u32 = 41;

/// Client-side action triggered by a Ctrl+Alt+Shift shortcut, which is
/// consumed locally and never forwarded.
#[derive(Debug, Clone, Copy, PartialEq, Eq, Structural)]
pub enum ShortcutAction {
    /// Quit the client (Ctrl+Alt+Shift+Q).
    Quit,
    /// Toggle input capture (Ctrl+Alt+Shift+Z).
    ToggleCapture,
    /// Toggle fullscreen (Ctrl+Alt+Shift+X).
    ToggleFullscreen,
    /// Toggle the stats overlay (Ctrl+Alt+Shift+S).
    ToggleStats,
}

/// Ctrl, Alt and Shift are held, each on either side of the keyboard.
pub open spec fn chord_held(keymod: u16) -> bool {
    &&& keymod & LCTRLMOD != 0 || keymod & RCTRLMOD != 0
    &&& keymod & LALTMOD != 0 || keymod & RALTMOD != 0
    &&& keymod & LSHIFTMOD != 0 || keymod & RSHIFTMOD != 0
}

/// The action of a key under the chord.
pub open spec fn chord_action(scancode: u32) -> Option<ShortcutAction> {
    if scancode == SCANCODE_Q {
        Some(ShortcutAction::Quit)
    } else if scancode == SCANCODE_Z {
        Some(ShortcutAction::ToggleCapture)
    } else if scancode == SCANCODE_X {
        Some(ShortcutAction::ToggleFullscreen)
    } else if scancode == SCANCODE_S {
        Some(ShortcutAction::ToggleStats)
    } else {
        None
    }
}

/// The shortcut of a key press, if the chord is held.
pub open spec fn shortcut_of(keymod: u16, scancode: u32) -> Option<ShortcutAction> {
    if chord_held(keymod) {
        chord_action(scancode)
    } else {
        None
    }
}

/// None of Ctrl, Alt and Shift is held.
pub open spec fn no_modifier(keymod: u16) -> bool {
    &&& keymod & LCTRLMOD == 0 && keymod & RCTRLMOD == 0
    &&& keymod & LALTMOD == 0 && keymod & RALTMOD == 0
    &&& keymod & LSHIFTMOD == 0 && keymod & RSHIFTMOD == 0
}

/// What a key press does in the client: a shortcut, or the end of the
/// session by Esc alone.
pub open spec fn key_action(keymod: u16, scancode: u32) -> Option<ShortcutAction> {
    match shortcut_of(keymod, scancode) {
        Some(action) => Some(action),
        None => if scancode == SCANCODE_ESCAPE && no_modifier(keymod) {
            Some(ShortcutAction::Quit)
        } else {
            None
        },
    }
}

/// Whether a key press is Esc alone.
pub fn is_plain_escape(keymod: u16, scancode: u32) -> (r: bool)
    ensures
        r == (scancode == SCANCODE_ESCAPE && no_modifier(keymod)),
{
    scancode == SCANCODE_ESCAPE && keymod & LCTRLMOD == 0 && keymod & RCTRLMOD == 0 && keymod
        & LALTMOD == 0 && keymod & RALTMOD == 0 && keymod & LSHIFTMOD == 0 && keymod & RSHIFTMOD
        == 0
}

/// Returns the shortcut action for a key press, if the Ctrl+Alt+Shift chord
/// is held and the key maps to an action.
pub fn shortcut_action(keymod: u16, scancode: u32) -> (action: Option<ShortcutAction>)
    ensures
        action == shortcut_of(keymod, scancode),
{
    let ctrl: bool = keymod & LCTRLMOD != 0 || keymod & RCTRLMOD != 0;
    let alt: bool = keymod & LALTMOD != 0 || keymod & RALTMOD != 0;
    let shift: bool = keymod & LSHIFTMOD != 0 || keymod & RSHIFTMOD != 0;
    if !(ctrl && alt && shift) {
        return None;
    }
    if scancode == SCANCODE_Q {
        Some(ShortcutAction::Quit)
    } else if scancode == SCANCODE_Z {
        Some(ShortcutAction::ToggleCapture)
    } else if scancode == SCANCODE_X {
        Some(ShortcutAction::ToggleFullscreen)
    } else if scancode == SCANCODE_S {
        Some(ShortcutAction::ToggleStats)
    } else {
        None
    }
}

/// Maps SDL joystick instance ids to stable gamepad slots. The lowest free
/// slot is reused when a controller disconnects and another connects.
pub struct PadSlots {
    slots: Vec<Option<u32>>,
}

impl View for PadSlots {
    type V = Seq<Option<u32>>;

    closed spec fn view(&self) -> Seq<Option<u32>> {
        self.slots@
    }
}

impl PadSlots {
    /// There are as many slots as gamepads, and no controller holds two.
    pub open spec fn wf(&self) -> bool {
        self@.len() == MAX_GAMEPADS && keys_distinct(self@)
    }

    /// All slots are free.
    pub fn new() -> (slots: PadSlots)
        ensures
            slots.wf(),
            forall|i: int| 0 <= i < slots@.len() ==> (#[trigger] slots@[i]) is None,
    {
        let mut slots: Vec<Option<u32>> = Vec::new();
        let mut n: u8 = 0;
        while n < MAX_GAMEPADS
            invariant
                n <= MAX_GAMEPADS,
                slots@.len() == n,
                forall|i: int| 0 <= i < n ==> (#[trigger] slots@[i]) is None,
            decreases MAX_GAMEPADS - n,
        {
            slots.push(None);
            n = n + 1;
        }
        PadSlots { slots }
    }

    /// Assigns the lowest free slot to a controller and returns it; the slot
    /// it already has; or none if all are taken.
    pub fn allocate(&mut self, instance_id: u32) -> (slot: Option<u8>)
        requires
            old(self).wf(),
        ensures
            final(self).wf(),
            (final(self)@, slot_number(slot)) == allocated(old(self)@, instance_id),
    {
        proof {
            lemma_slots_stay_distinct(self@, instance_id);
        }
        if let Some(slot) = self.get(instance_id) {
            return Some(slot);
        }
        let ghost free = |s: Option<u32>| s is None;
        let mut n: usize = 0;
        while n < self.slots.len()
            invariant
                n <= self.slots.len(),
                self.slots@ == old(self)@,
                self.slots@.len() == MAX_GAMEPADS,
                free == (|s: Option<u32>| s is None),
                forall|i: int| 0 <= i < n ==> !free(#[trigger] self.slots@[i]),
                slot_of(old(self)@, instance_id) is None,
                keys_distinct(allocated(old(self)@, instance_id).0),
                allocated(old(self)@, instance_id).0.len() == MAX_GAMEPADS,
            decreases self.slots.len() - n,
        {
            if self.slots[n].is_none() {
                proof {
                    lemma_first_where_at(self.slots@, free, n as int);
                }
                self.slots.set(n, Some(instance_id));
                return Some(n as u8);
            }
            n = n + 1;
        }
        proof {
            lemma_first_where_at(self.slots@, free, n as int);
        }
        None
    }

    /// Frees the slot held by a controller, returning it.
    pub fn release(&mut self, instance_id: u32) -> (slot: Option<u8>)
        requires
            old(self).wf(),
        ensures
            final(self).wf(),
            (final(self)@, slot_number(slot)) == released(old(self)@, instance_id),
    {
        proof {
            lemma_slots_stay_distinct(self@, instance_id);
            lemma_first_where(self@, |s: Option<u32>| s == Some(instance_id));
        }
        match self.get(instance_id) {
            Some(slot) => {
                self.slots.set(slot as usize, None);
                Some(slot)
            },
            None => None,
        }
    }

    /// Returns the slot held by a controller, if any.
    pub fn get(&self, instance_id: u32) -> (slot: Option<u8>)
        requires
            self.wf(),
        ensures
            slot_number(slot) == slot_of(self@, instance_id),
    {
        let ghost held = |s: Option<u32>| s == Some(instance_id);
        let mut n: usize = 0;
        while n < self.slots.len()
            invariant
                n <= self.slots.len(),
                self.slots@.len() == MAX_GAMEPADS,
                held == (|s: Option<u32>| s == Some(instance_id)),
                forall|i: int| 0 <= i < n ==> !held(#[trigger] self.slots@[i]),
            decreases self.slots.len() - n,
        {
            if let Some(id) = self.slots[n] {
                if id == instance_id {
                    proof {
                        lemma_first_where_at(self.slots@, held, n as int);
                    }
                    return Some(n as u8);
                }
            }
            n = n + 1;
        }
        proof {
            lemma_first_where_at(self.slots@, held, n as int);
        }
        None
    }
}

/// A sequence with a value at the end, if it does not have it yet.
pub open spec fn with_held<T>(held: Seq<T>, v: T) -> Seq<T> {
    if held.contains(v) {
        held
    } else {
        held.push(v)
    }
}

/// A sequence without a value.
pub open spec fn without_held<T>(held: Seq<T>, v: T) -> Seq<T> {
    held.filter(|x: T| x != v)
}

/// Keys and mouse buttons that are held in the remote session, so that they
/// can all be released instead of staying stuck.
pub struct InputTracker {
    keys: Vec<u32>,
    mouse_buttons: Vec<MouseButton>,
}

/// What an [`InputTracker`] holds, in the order of the presses.
#[verifier::ext_equal]
pub struct TrackerView {
    pub keys: Seq<u32>,
    pub mouse_buttons: Seq<MouseButton>,
}

impl View for InputTracker {
    type V = TrackerView;

    closed spec fn view(&self) -> TrackerView {
        TrackerView { keys: self.keys@, mouse_buttons: self.mouse_buttons@ }
    }
}

impl TrackerView {
    /// Each key and button is held once.
    pub open spec fn wf(self) -> bool {
        self.keys.no_duplicates() && self.mouse_buttons.no_duplicates()
    }

    pub open spec fn empty() -> TrackerView {
        TrackerView { keys: Seq::empty(), mouse_buttons: Seq::empty() }
    }

    /// The releases of everything that is held, keys first.
    pub open spec fn releases(self) -> Seq<InputView> {
        Seq::new(
            self.keys.len(),
            |i: int| InputView::Keyboard { scancode: self.keys[i], pressed: false },
        ) + Seq::new(
            self.mouse_buttons.len(),
            |i: int| InputView::MouseButton { button: self.mouse_buttons[i], pressed: false },
        )
    }
}

/// The views of some input events.
pub open spec fn input_views(events: Seq<InputEvent>) -> Seq<InputView> {
    Seq::new(events.len(), |i: int| events[i]@)
}

proof fn lemma_without_held<T>(held: Seq<T>, v: T, at: int)
    requires
        held.no_duplicates(),
        0 <= at < held.len(),
        held[at] == v,
    ensures
        without_held(held, v) == held.remove(at),
    decreases held.len(),
{
    reveal(Seq::filter);
    let p = |x: T| x != v;
    let front = held.drop_last();
    if at == held.len() - 1 {
        assert(!front.contains(v)) by {
            if front.contains(v) {
                let k = front.index_of(v);
                assert(held[k] == held[at]);
            }
        }
        lemma_without_absent(front, v);
        assert(held.remove(at) =~= front);
    } else {
        lemma_without_held(front, v, at);
        assert(held.last() != v);
        assert(held.remove(at) =~= front.remove(at).push(held.last()));
    }
}

proof fn lemma_without_absent<T>(held: Seq<T>, v: T)
    requires
        !held.contains(v),
    ensures
        without_held(held, v) == held,
    decreases held.len(),
{
    reveal(Seq::filter);
    if held.len() > 0 {
        let front = held.drop_last();
        assert(!front.contains(v)) by {
            if front.contains(v) {
                let k = front.index_of(v);
                assert(held[k] == v);
            }
        }
        lemma_without_absent(front, v);
        assert(held.last() != v) by {
            assert(held.contains(held.last()));
        }
        assert(front.push(held.last()) =~= held);
    } else {
        assert(held =~= Seq::empty());
    }
}

proof fn lemma_with_held_distinct<T>(held: Seq<T>, v: T)
    requires
        held.no_duplicates(),
    ensures
        with_held(held, v).no_duplicates(),
{
    if !held.contains(v) {
        let after = held.push(v);
        assert forall|i: int, j: int|
            0 <= i < after.len() && 0 <= j < after.len() && i != j implies after[i] != after[j] by {
            if i == held.len() {
                assert(held.contains(held[j]));
            }
            if j == held.len() {
                assert(held.contains(held[i]));
            }
        }
    }
}

proof fn lemma_remove_distinct<T>(held: Seq<T>, at: int)
    requires
        held.no_duplicates(),
        0 <= at < held.len(),
    ensures
        held.remove(at).no_duplicates(),
{
    let after = held.remove(at);
    assert forall|i: int, j: int|
        0 <= i < after.len() && 0 <= j < after.len() && i != j implies after[i] != after[j] by {
        let a = if i < at {
            i
        } else {
            i + 1
        };
        let b = if j < at {
            j
        } else {
            j + 1
        };
        assert(held[a] != held[b]);
    }
}

impl InputTracker {
    /// Nothing is held.
    pub fn new() -> (tracker: InputTracker)
        ensures
            tracker@ == TrackerView::empty(),
            tracker@.wf(),
    {
        InputTracker { keys: Vec::new(), mouse_buttons: Vec::new() }
    }

    fn key_position(&self, scancode: u32) -> (r: Option<usize>)
        ensures
            match r {
                Some(i) => i < self@.keys.len() && self@.keys[i as int] == scancode,
                None => !self@.keys.contains(scancode),
            },
    {
        let mut n: usize = 0;
        while n < self.keys.len()
            invariant
                n <= self.keys.len(),
                forall|i: int| 0 <= i < n ==> self.keys@[i] != scancode,
            decreases self.keys.len() - n,
        {
            if self.keys[n] == scancode {
                return Some(n);
            }
            n = n + 1;
        }
        None
    }

    fn button_position(&self, button: MouseButton) -> (r: Option<usize>)
        ensures
            match r {
                Some(i) => i < self@.mouse_buttons.len() && self@.mouse_buttons[i as int]
                    == button,
                None => !self@.mouse_buttons.contains(button),
            },
    {
        let mut n: usize = 0;
        while n < self.mouse_buttons.len()
            invariant
                n <= self.mouse_buttons.len(),
                forall|i: int| 0 <= i < n ==> self.mouse_buttons@[i] != button,
            decreases self.mouse_buttons.len() - n,
        {
            if self.mouse_buttons[n] == button {
                return Some(n);
            }
            n = n + 1;
        }
        None
    }

    /// Notes that a key was pressed.
    pub fn key_down(&mut self, scancode: u32)
        requires
            old(self)@.wf(),
        ensures
            final(self)@.wf(),
            final(self)@ == (TrackerView {
                keys: with_held(old(self)@.keys, scancode),
                ..old(self)@
            }),
    {
        proof {
            lemma_with_held_distinct(self@.keys, scancode);
        }
        if self.key_position(scancode).is_none() {
            self.keys.push(scancode);
        } else {
            assert(self@.keys.contains(scancode));
        }
    }

    /// Notes that a key was released.
    pub fn key_up(&mut self, scancode: u32)
        requires
            old(self)@.wf(),
        ensures
            final(self)@.wf(),
            final(self)@ == (TrackerView {
                keys: without_held(old(self)@.keys, scancode),
                ..old(self)@
            }),
    {
        match self.key_position(scancode) {
            Some(i) => {
                proof {
                    lemma_without_held(self@.keys, scancode, i as int);
                    lemma_remove_distinct(self@.keys, i as int);
                }
                let _ = self.keys.remove(i);
            },
            None => {
                proof {
                    lemma_without_absent(self@.keys, scancode);
                }
            },
        }
    }

    /// Notes that a mouse button was pressed.
    pub fn mouse_down(&mut self, button: MouseButton)
        requires
            old(self)@.wf(),
        ensures
            final(self)@.wf(),
            final(self)@ == (TrackerView {
                mouse_buttons: with_held(old(self)@.mouse_buttons, button),
                ..old(self)@
            }),
    {
        proof {
            lemma_with_held_distinct(self@.mouse_buttons, button);
        }
        if self.button_position(button).is_none() {
            self.mouse_buttons.push(button);
        } else {
            assert(self@.mouse_buttons.contains(button));
        }
    }

    /// Notes that a mouse button was released.
    pub fn mouse_up(&mut self, button: MouseButton)
        requires
            old(self)@.wf(),
        ensures
            final(self)@.wf(),
            final(self)@ == (TrackerView {
                mouse_buttons: without_held(old(self)@.mouse_buttons, button),
                ..old(self)@
            }),
    {
        match self.button_position(button) {
            Some(i) => {
                proof {
                    lemma_without_held(self@.mouse_buttons, button, i as int);
                    lemma_remove_distinct(self@.mouse_buttons, i as int);
                }
                let _ = self.mouse_buttons.remove(i);
            },
            None => {
                proof {
                    lemma_without_absent(self@.mouse_buttons, button);
                }
            },
        }
    }

    /// Takes out everything that is held, as release events for the server.
    pub fn release_all(&mut self) -> (events: Vec<InputEvent>)
        ensures
            input_views(events@) == old(self)@.releases(),
            final(self)@ == TrackerView::empty(),
    {
        let mut events: Vec<InputEvent> = Vec::new();
        let ghost all = self@.releases();
        let mut n: usize = 0;
        while n < self.keys.len()
            invariant
                n <= self.keys.len(),
                self@ == old(self)@,
                all == self@.releases(),
                input_views(events@) == all.take(n as int),
            decreases self.keys.len() - n,
        {
            let ghost before = events@;
            let event = InputEvent::Keyboard { scancode: self.keys[n], pressed: false };
            events.push(event);
            proof {
                assert(input_views(events@) =~= input_views(before).push(event@));
                assert(event@ == all[n as int]);
                assert(all.take(n + 1) =~= all.take(n as int).push(all[n as int]));
            }
            n = n + 1;
        }
        let mut m: usize = 0;
        while m < self.mouse_buttons.len()
            invariant
                m <= self.mouse_buttons.len(),
                self@ == old(self)@,
                all == self@.releases(),
                input_views(events@) == all.take(self.keys@.len() + m),
            decreases self.mouse_buttons.len() - m,
        {
            let ghost before = events@;
            let ghost at = self.keys@.len() + m;
            let event = InputEvent::MouseButton { button: self.mouse_buttons[m], pressed: false };
            events.push(event);
            proof {
                assert(input_views(events@) =~= input_views(before).push(event@));
                assert(event@ == all[at]);
                assert(all.take(at + 1) =~= all.take(at).push(all[at]));
            }
            m = m + 1;
        }
        assert(all.take(self.keys@.len() + m) =~= all);
        self.keys = Vec::new();
        self.mouse_buttons = Vec::new();
        assert(self@ =~= TrackerView::empty());
        events
    }
}

/// Whatever was pressed and not released is released exactly once, and then
/// nothing is held.
pub proof fn law_release_covers_held(t: TrackerView, scancode: u32)
    requires
        t.wf(),
    ensures
        t.keys.contains(scancode) <==> t.releases().contains(
            InputView::Keyboard { scancode, pressed: false },
        ),
        t.releases().len() == t.keys.len() + t.mouse_buttons.len(),
        t.releases().no_duplicates(),
{
    let r = t.releases();
    if t.keys.contains(scancode) {
        let i = t.keys.index_of(scancode);
        assert(r[i] == InputView::Keyboard { scancode, pressed: false });
    }
    if r.contains(InputView::Keyboard { scancode, pressed: false }) {
        let i = r.index_of(InputView::Keyboard { scancode, pressed: false });
        if i < t.keys.len() {
            assert(t.keys[i] == scancode);
        }
    }
}

/// A key that goes down and up again leaves nothing held.
pub proof fn law_press_and_release_cancel(held: Seq<u32>, scancode: u32)
    requires
        held.no_duplicates(),
        !held.contains(scancode),
    ensures
        without_held(with_held(held, scancode), scancode) == held,
{
    lemma_with_held_distinct(held, scancode);
    lemma_without_held(with_held(held, scancode), scancode, held.len() as int);
    assert(held.push(scancode).remove(held.len() as int) =~= held);
}

/// The button that a mouse reports, as the wire names it.
pub open spec fn mouse_button_of(button: PointerButton) -> Option<MouseButton> {
    match button {
        PointerButton::Left => Some(MouseButton::Left),
        PointerButton::Right => Some(MouseButton::Right),
        PointerButton::Middle => Some(MouseButton::Middle),
        PointerButton::Side => Some(MouseButton::Side),
        PointerButton::Extra => Some(MouseButton::Extra),
        PointerButton::Other => None,
    }
}

/// Maps a mouse button; none for an unknown one.
pub fn map_mouse_button(button: PointerButton) -> (r: Option<MouseButton>)
    ensures
        r == mouse_button_of(button),
{
    match button {
        PointerButton::Left => Some(MouseButton::Left),
        PointerButton::Right => Some(MouseButton::Right),
        PointerButton::Middle => Some(MouseButton::Middle),
        PointerButton::Side => Some(MouseButton::Side),
        PointerButton::Extra => Some(MouseButton::Extra),
        PointerButton::Other => None,
    }
}

/// The axis that a controller reports, as the wire names it.
pub open spec fn gamepad_axis_of(axis: Axis) -> GamepadAxis {
    match axis {
        Axis::LeftX => GamepadAxis::LeftX,
        Axis::LeftY => GamepadAxis::LeftY,
        Axis::RightX => GamepadAxis::RightX,
        Axis::RightY => GamepadAxis::RightY,
        Axis::TriggerLeft => GamepadAxis::TriggerLeft,
        Axis::TriggerRight => GamepadAxis::TriggerRight,
    }
}

/// Maps a controller axis.
pub fn map_gamepad_axis(axis: Axis) -> (r: GamepadAxis)
    ensures
        r == gamepad_axis_of(axis),
{
    match axis {
        Axis::LeftX => GamepadAxis::LeftX,
        Axis::LeftY => GamepadAxis::LeftY,
        Axis::RightX => GamepadAxis::RightX,
        Axis::RightY => GamepadAxis::RightY,
        Axis::TriggerLeft => GamepadAxis::TriggerLeft,
        Axis::TriggerRight => GamepadAxis::TriggerRight,
    }
}

/// The button that a controller reports, as the wire names it.
pub open spec fn gamepad_button_of(button: Button) -> Option<GamepadButton> {
    match button {
        Button::A => Some(GamepadButton::South),
        Button::B => Some(GamepadButton::East),
        Button::X => Some(GamepadButton::West),
        Button::Y => Some(GamepadButton::North),
        Button::Start => Some(GamepadButton::Start),
        Button::Back => Some(GamepadButton::Back),
        Button::Guide => Some(GamepadButton::Guide),
        Button::LeftStick => Some(GamepadButton::LeftStick),
        Button::RightStick => Some(GamepadButton::RightStick),
        Button::LeftShoulder => Some(GamepadButton::LeftShoulder),
        Button::RightShoulder => Some(GamepadButton::RightShoulder),
        Button::DPadUp => Some(GamepadButton::DPadUp),
        Button::DPadDown => Some(GamepadButton::DPadDown),
        Button::DPadLeft => Some(GamepadButton::DPadLeft),
        Button::DPadRight => Some(GamepadButton::DPadRight),
        Button::Other => None,
    }
}

/// Maps a controller button; none for one that is not forwarded.
pub fn map_gamepad_button(button: Button) -> (r: Option<GamepadButton>)
    ensures
        r == gamepad_button_of(button),
{
    match button {
        Button::A => Some(GamepadButton::South),
        Button::B => Some(GamepadButton::East),
        Button::X => Some(GamepadButton::West),
        Button::Y => Some(GamepadButton::North),
        Button::Start => Some(GamepadButton::Start),
        Button::Back => Some(GamepadButton::Back),
        Button::Guide => Some(GamepadButton::Guide),
        Button::LeftStick => Some(GamepadButton::LeftStick),
        Button::RightStick => Some(GamepadButton::RightStick),
        Button::LeftShoulder => Some(GamepadButton::LeftShoulder),
        Button::RightShoulder => Some(GamepadButton::RightShoulder),
        Button::DPadUp => Some(GamepadButton::DPadUp),
        Button::DPadDown => Some(GamepadButton::DPadDown),
        Button::DPadLeft => Some(GamepadButton::DPadLeft),
        Button::DPadRight => Some(GamepadButton::DPadRight),
        Button::Other => None,
    }
}

} // verus!
