//! Gamepad pass-through: slots, the registry of grabbed devices, the quit
//! chord, and the decisions of scanner and reader.
use crate::clock::Clock;
use crate::input::{
    AbsAxisSpec, GamepadDescriptor, GamepadDescriptorView, InputEvent, InputView, RawGamepadEvent,
    MAX_GAMEPADS,
};
use crate::slots::{
    allocated, free_slot, keys_distinct, lemma_first_where, lemma_first_where_at,
    lemma_slots_stay_distinct, make_usb_id, released, slot_number, slot_of, usb_id, GrabSet,
    TextSet,
};
use crate::text::{copy_text, same_text, string_views};
use crate::ui::elapsed_ns;
use std::collections::HashSet;
use vstd::prelude::*;

verus! {

broadcast use vstd::std_specs::hash::group_hash_axioms;

/// Valve's USB vendor id.
pub const VALVE_VENDOR_ID: u16 = 0x28de;

/// How long both buttons of the quit chord must be held, in nanoseconds.
pub const QUIT_CHORD_HOLD: u64 = 1_000_000_000;

/// evdev type of key events.
pub const EV_KEY: u16 = 1;

/// evdev type of absolute axis events.
pub const EV_ABS: u16 = 3;

/// evdev code that every gamepad has (the south button).
pub const BTN_SOUTH: u16 = 0x130;

/// evdev code of the select button.
pub const BTN_SELECT: u16 = 0x13a;

/// evdev code of the start button.
pub const BTN_START: u16 = 0x13b;

/// evdev code of the volume-down key.
pub const KEY_VOLUMEDOWN: u16 = 114;

/// evdev code of the volume-up key.
pub const KEY_VOLUMEUP: u16 = 115;

/// Tracks the "end session" chord of two buttons on one input device.
pub struct QuitChord {
    select_since: Option<u64>,
    start_since: Option<u64>,
    clock: Clock,
}

/// Since when the two buttons of a [`QuitChord`] are held.
#[verifier::ext_equal]
pub struct ChordView {
    pub select_since: Option<u64>,
    pub start_since: Option<u64>,
}

impl View for QuitChord {
    type V = ChordView;

    closed spec fn view(&self) -> ChordView {
        ChordView { select_since: self.select_since, start_since: self.start_since }
    }
}

/// Since when a button is held after it was seen pressed or released: a
/// press that goes on keeps its time.
pub open spec fn held_since(since: Option<u64>, pressed: bool, now: u64) -> Option<u64> {
    if pressed {
        match since {
            Some(t) => Some(t),
            None => Some(now),
        }
    } else {
        None
    }
}

impl ChordView {
    /// Both buttons have been held together long enough.
    pub open spec fn fired(self, now: u64) -> bool {
        match (self.select_since, self.start_since) {
            (Some(a), Some(b)) => elapsed_ns(
                if a > b {
                    a
                } else {
                    b
                },
                now,
            ) >= QUIT_CHORD_HOLD,
            _ => false,
        }
    }

    pub open spec fn select(self, pressed: bool, now: u64) -> ChordView {
        ChordView { select_since: held_since(self.select_since, pressed, now), ..self }
    }

    pub open spec fn start(self, pressed: bool, now: u64) -> ChordView {
        ChordView { start_since: held_since(self.start_since, pressed, now), ..self }
    }

    /// The chord after a key event, where `select` and `start` are the codes
    /// of its two buttons.
    pub open spec fn keyed(self, event: RawGamepadEvent, select: u16, start: u16, now: u64) -> ChordView {
        if event.event_type != EV_KEY {
            self
        } else if event.code == select {
            self.select(event.value != 0, now)
        } else if event.code == start {
            self.start(event.value != 0, now)
        } else {
            self
        }
    }

    /// The chord after some events in order.
    pub open spec fn after_events(
        self,
        events: Seq<RawGamepadEvent>,
        select: u16,
        start: u16,
        now: u64,
    ) -> ChordView
        decreases events.len(),
    {
        if events.len() == 0 {
            self
        } else {
            self.after_events(events.drop_last(), select, start, now).keyed(
                events.last(),
                select,
                start,
                now,
            )
        }
    }
}

impl Default for QuitChord {
    fn default() -> (chord: QuitChord)
        ensures
            chord@ == (ChordView { select_since: None, start_since: None }),
    {
        QuitChord { select_since: None, start_since: None, clock: Clock::start() }
    }
}

impl QuitChord {
    fn set(slot: Option<u64>, pressed: bool, now: u64) -> (r: Option<u64>)
        ensures
            r == held_since(slot, pressed, now),
    {
        if pressed {
            match slot {
                Some(t) => Some(t),
                None => Some(now),
            }
        } else {
            None
        }
    }

    /// Notes at `now` whether the select button is held.
    pub fn set_select_at(&mut self, pressed: bool, now: u64)
        ensures
            final(self)@ == old(self)@.select(pressed, now),
    {
        self.select_since = QuitChord::set(self.select_since, pressed, now);
    }

    /// Notes whether the select button is held.
    pub fn set_select(&mut self, pressed: bool)
        ensures
            exists|now: u64| final(self)@ == #[trigger] old(self)@.select(pressed, now),
    {
        let now: u64 = self.clock.now();
        self.set_select_at(pressed, now);
    }

    /// Notes at `now` whether the start button is held.
    pub fn set_start_at(&mut self, pressed: bool, now: u64)
        ensures
            final(self)@ == old(self)@.start(pressed, now),
    {
        self.start_since = QuitChord::set(self.start_since, pressed, now);
    }

    /// Notes whether the start button is held.
    pub fn set_start(&mut self, pressed: bool)
        ensures
            exists|now: u64| final(self)@ == #[trigger] old(self)@.start(pressed, now),
    {
        let now: u64 = self.clock.now();
        self.set_start_at(pressed, now);
    }

    /// Whether both buttons have been held together long enough at `now`.
    pub fn fired_at(&self, now: u64) -> (r: bool)
        ensures
            r == self@.fired(now),
    {
        match (self.select_since, self.start_since) {
            (Some(a), Some(b)) => {
                let since: u64 = if a > b {
                    a
                } else {
                    b
                };
                now >= since && now - since >= QUIT_CHORD_HOLD
            },
            _ => false,
        }
    }

    /// Whether both buttons have been held together long enough.
    pub fn fired(&self) -> (r: bool)
        ensures
            exists|now: u64| r == #[trigger] self@.fired(now),
    {
        let now: u64 = self.clock.now();
        self.fired_at(now)
    }

    /// Takes a key event of a device whose chord has these two codes.
    pub fn key_event_at(&mut self, event: &RawGamepadEvent, select: u16, start: u16, now: u64)
        ensures
            final(self)@ == old(self)@.keyed(*event, select, start, now),
    {
        if event.event_type == EV_KEY {
            if event.code == select {
                self.set_select_at(event.value != 0, now);
            } else if event.code == start {
                self.set_start_at(event.value != 0, now);
            }
        }
    }

    /// The time that the chord reads.
    pub fn now(&self) -> u64 {
        self.clock.now()
    }
}

/// Releasing either button cancels the chord, and pressing it again starts
/// the hold over.
pub proof fn law_release_cancels_chord(c: ChordView, at: u64, now: u64)
    requires
        at <= now < at + QUIT_CHORD_HOLD,
    ensures
        !c.start(false, at).fired(now),
        !c.select(false, at).fired(now),
        !c.start(false, at).start(true, at).fired(now),
        !c.select(false, at).select(true, at).fired(now),
{
}

/// The chord fires once both buttons were held for the whole time, however
/// often the presses are reported.
pub proof fn law_held_chord_fires(a: u64, b: u64, again: u64, now: u64)
    requires
        a + QUIT_CHORD_HOLD <= now,
        b + QUIT_CHORD_HOLD <= now,
    ensures
        (ChordView { select_since: None, start_since: None }).select(true, a).start(
            true,
            b,
        ).select(true, again).start(true, again).fired(now),
{
}

/// Who owns a pad slot: the emulation path, by the joystick instance id, or
/// the pass-through path, by the device node.
#[derive(Debug, PartialEq, Eq)]
pub enum PadKey {
    /// SDL joystick instance id.
    Sdl(u32),
    /// Evdev device node.
    Evdev(String),
}

/// What a [`PadKey`] holds.
pub enum PadKeyView {
    Sdl(u32),
    Evdev(Seq<char>),
}

impl View for PadKey {
    type V = PadKeyView;

    open spec fn view(&self) -> PadKeyView {
        match self {
            PadKey::Sdl(id) => PadKeyView::Sdl(*id),
            PadKey::Evdev(node) => PadKeyView::Evdev(node@),
        }
    }
}

impl Clone for PadKey {
    fn clone(&self) -> (r: PadKey)
        ensures
            r@ == self@,
    {
        match self {
            PadKey::Sdl(id) => PadKey::Sdl(*id),
            PadKey::Evdev(node) => PadKey::Evdev(node.clone()),
        }
    }
}

fn same_key(a: &PadKey, b: &PadKey) -> (r: bool)
    ensures
        r == (a@ == b@),
{
    match (a, b) {
        (PadKey::Sdl(x), PadKey::Sdl(y)) => *x == *y,
        (PadKey::Evdev(x), PadKey::Evdev(y)) => same_text(x.as_str(), y.as_str()),
        _ => false,
    }
}

/// The view of a slot.
pub open spec fn pad_slot_view(slot: Option<PadKey>) -> Option<PadKeyView> {
    match slot {
        Some(key) => Some(key@),
        None => None,
    }
}

/// Pad slot table and grab registry, shared by the event loop of the window
/// and the pass-through scanner and readers.
pub struct SharedGamepads {
    slots: Vec<Option<PadKey>>,
    grabs: GrabSet,
    claims: HashSet<u32>,
    active_nodes: TextSet,
    ignored_nodes: TextSet,
    lost: HashSet<u32>,
    generation: u64,
    quit_requested: bool,
}

/// What a [`SharedGamepads`] holds.
#[verifier::ext_equal]
pub struct SharedView {
    /// The owners of the slots.
    pub slots: Seq<Option<PadKeyView>>,
    /// The devices grabbed by the pass-through path, by node and USB id.
    pub grabs: Set<(Seq<char>, u32)>,
    /// The USB ids of devices claimed without an evdev node.
    pub claims: Set<u32>,
    /// Device nodes that a pass-through reader owns.
    pub active_nodes: Set<Seq<char>>,
    /// Device nodes that the scanner leaves alone.
    pub ignored_nodes: Set<Seq<char>>,
    /// The USB ids of devices whose pass-through ended because they vanished.
    pub lost: Set<u32>,
    /// Counts the changes of the grabbed set, modulo its range.
    pub generation: u64,
    /// The quit chord fired on some device.
    pub quit_requested: bool,
}

impl View for SharedGamepads {
    type V = SharedView;

    closed spec fn view(&self) -> SharedView {
        SharedView {
            slots: Seq::new(self.slots@.len(), |i: int| pad_slot_view(self.slots@[i])),
            grabs: self.grabs@,
            claims: self.claims@,
            active_nodes: self.active_nodes@,
            ignored_nodes: self.ignored_nodes@,
            lost: self.lost@,
            generation: self.generation,
            quit_requested: self.quit_requested,
        }
    }
}

/// The generation after a change.
pub open spec fn bumped(generation: u64) -> u64 {
    if generation < u64::MAX {
        (generation + 1) as u64
    } else {
        0
    }
}

impl SharedView {
    /// Some device with these ids is grabbed or claimed, and must not be
    /// emulated.
    pub open spec fn holds(self, vendor: u16, product: u16) -> bool {
        ||| self.claims.contains(usb_id(vendor, product))
        ||| exists|node: Seq<char>| #[trigger] self.grabs.contains((node, usb_id(vendor, product)))
    }

    /// A device is passed through: it is grabbed, its node has a reader, and
    /// an earlier loss is forgotten.
    pub open spec fn with_grabbed(self, node: Seq<char>, vendor: u16, product: u16) -> SharedView {
        SharedView {
            grabs: self.grabs.insert((node, usb_id(vendor, product))),
            active_nodes: self.active_nodes.insert(node),
            lost: self.lost.remove(usb_id(vendor, product)),
            generation: bumped(self.generation),
            ..self
        }
    }

    /// A device is no longer passed through.
    pub open spec fn without_grabbed(
        self,
        node: Seq<char>,
        vendor: u16,
        product: u16,
    ) -> SharedView {
        SharedView {
            grabs: self.grabs.remove((node, usb_id(vendor, product))),
            active_nodes: self.active_nodes.remove(node),
            generation: bumped(self.generation),
            ..self
        }
    }

    /// A device is claimed without an evdev node.
    pub open spec fn with_claimed(self, vendor: u16, product: u16) -> SharedView {
        SharedView {
            claims: self.claims.insert(usb_id(vendor, product)),
            generation: bumped(self.generation),
            ..self
        }
    }

    pub open spec fn without_claimed(self, vendor: u16, product: u16) -> SharedView {
        SharedView {
            claims: self.claims.remove(usb_id(vendor, product)),
            generation: bumped(self.generation),
            ..self
        }
    }

    pub open spec fn with_ignored(self, node: Seq<char>) -> SharedView {
        SharedView { ignored_nodes: self.ignored_nodes.insert(node), ..self }
    }
}

impl SharedGamepads {
    /// There are as many slots as gamepads, and no owner has two.
    pub closed spec fn wf(&self) -> bool {
        &&& self.slots@.len() == MAX_GAMEPADS
        &&& keys_distinct(self@.slots)
        &&& self.grabs.wf()
        &&& self.active_nodes.wf()
        &&& self.ignored_nodes.wf()
    }

    /// Nothing is connected, grabbed, ignored or lost.
    pub fn new() -> (shared: SharedGamepads)
        ensures
            shared.wf(),
            shared@.slots == Seq::new(MAX_GAMEPADS as nat, |i: int| None::<PadKeyView>),
            shared@.grabs == Set::<(Seq<char>, u32)>::empty(),
            shared@.claims == Set::<u32>::empty(),
            shared@.active_nodes == Set::<Seq<char>>::empty(),
            shared@.ignored_nodes == Set::<Seq<char>>::empty(),
            shared@.lost == Set::<u32>::empty(),
            shared@.generation == 0,
            !shared@.quit_requested,
    {
        let mut slots: Vec<Option<PadKey>> = Vec::new();
        let mut n: u8 = 0;
        while n < MAX_GAMEPADS
            invariant
                n <= MAX_GAMEPADS,
                slots@.len() == n,
                forall|i: int| 0 <= i < n ==> (#[trigger] slots@[i]) is None,
            decreases MAX_GAMEPADS - n,
        {
            slots.push(None);
            n = n + 1;
        }
        let shared = SharedGamepads {
            slots,
            grabs: GrabSet::new(),
            claims: HashSet::new(),
            active_nodes: TextSet::new(),
            ignored_nodes: TextSet::new(),
            lost: HashSet::new(),
            generation: 0,
            quit_requested: false,
        };
        assert(shared@.slots =~= Seq::new(MAX_GAMEPADS as nat, |i: int| None::<PadKeyView>));
        shared
    }

    /// Signals that the user asked to end the session with a quit chord.
    pub fn request_quit(&mut self)
        requires
            old(self).wf(),
        ensures
            final(self).wf(),
            final(self)@ == (SharedView { quit_requested: true, ..old(self)@ }),
    {
        self.quit_requested = true;
    }

    /// Whether a quit chord fired on any device.
    pub fn quit_requested(&self) -> (r: bool)
        ensures
            r == self@.quit_requested,
    {
        self.quit_requested
    }

    fn find(&self, key: &PadKey) -> (slot: Option<u8>)
        requires
            self.wf(),
        ensures
            slot_number(slot) == slot_of(self@.slots, key@),
    {
        let ghost held = |s: Option<PadKeyView>| s == Some(key@);
        let mut n: usize = 0;
        while n < self.slots.len()
            invariant
                n <= self.slots.len(),
                self.slots@.len() == MAX_GAMEPADS,
                held == (|s: Option<PadKeyView>| s == Some(key@)),
                forall|i: int| 0 <= i < n ==> !held(#[trigger] self@.slots[i]),
            decreases self.slots.len() - n,
        {
            assert(self@.slots[n as int] == pad_slot_view(self.slots@[n as int]));
            if let Some(owner) = &self.slots[n] {
                if same_key(owner, key) {
                    proof {
                        lemma_first_where_at(self@.slots, held, n as int);
                    }
                    return Some(n as u8);
                }
            }
            n = n + 1;
        }
        proof {
            lemma_first_where_at(self@.slots, held, n as int);
        }
        None
    }

    /// Assigns the lowest free slot to an owner and returns it; the slot it
    /// already has; or none if all are taken.
    pub fn allocate(&mut self, key: &PadKey) -> (slot: Option<u8>)
        requires
            old(self).wf(),
        ensures
            final(self).wf(),
            final(self)@ == (SharedView {
                slots: allocated(old(self)@.slots, key@).0,
                ..old(self)@
            }),
            slot_number(slot) == allocated(old(self)@.slots, key@).1,
    {
        proof {
            lemma_slots_stay_distinct(self@.slots, key@);
        }
        if let Some(slot) = self.find(key) {
            return Some(slot);
        }
        let ghost free = |s: Option<PadKeyView>| s is None;
        let mut n: usize = 0;
        while n < self.slots.len()
            invariant
                n <= self.slots.len(),
                self == old(self),
                self.wf(),
                free == (|s: Option<PadKeyView>| s is None),
                forall|i: int| 0 <= i < n ==> !free(#[trigger] self@.slots[i]),
                slot_of(old(self)@.slots, key@) is None,
                keys_distinct(allocated(old(self)@.slots, key@).0),
            decreases self.slots.len() - n,
        {
            assert(self@.slots[n as int] == pad_slot_view(self.slots@[n as int]));
            if self.slots[n].is_none() {
                proof {
                    lemma_first_where_at(self@.slots, free, n as int);
                }
                let owner = key.clone();
                self.slots.set(n, Some(owner));
                assert(self@.slots =~= old(self)@.slots.update(n as int, Some(key@)));
                return Some(n as u8);
            }
            n = n + 1;
        }
        proof {
            lemma_first_where_at(self@.slots, free, n as int);
        }
        None
    }

    /// Frees the slot of an owner, returning it.
    pub fn release(&mut self, key: &PadKey) -> (slot: Option<u8>)
        requires
            old(self).wf(),
        ensures
            final(self).wf(),
            final(self)@ == (SharedView {
                slots: released(old(self)@.slots, key@).0,
                ..old(self)@
            }),
            slot_number(slot) == released(old(self)@.slots, key@).1,
    {
        proof {
            lemma_slots_stay_distinct(self@.slots, key@);
            lemma_first_where(self@.slots, |s: Option<PadKeyView>| s == Some(key@));
        }
        match self.find(key) {
            Some(slot) => {
                self.slots.set(slot as usize, None);
                assert(self@.slots =~= old(self)@.slots.update(slot as int, None));
                Some(slot)
            },
            None => None,
        }
    }

    /// The slot of an owner, if it has one.
    pub fn get(&self, key: &PadKey) -> (slot: Option<u8>)
        requires
            self.wf(),
        ensures
            slot_number(slot) == slot_of(self@.slots, key@),
    {
        self.find(key)
    }

    /// Whether a device with these ids is grabbed by the pass-through path
    /// and must not be emulated.
    pub fn is_grabbed(&self, vendor: u16, product: u16) -> (r: bool)
        ensures
            r == self@.holds(vendor, product),
    {
        let id: u32 = make_usb_id(vendor, product);
        let held = self.grabs.has_id(id);
        proof {
            if held {
                let node = choose|node: Seq<char>| #[trigger] self.grabs@.contains((node, id));
                assert(self@.grabs.contains((node, usb_id(vendor, product))));
            }
        }
        self.claims.contains(&id) || held
    }

    /// Counts the changes of the grabbed set.
    pub fn generation(&self) -> (n: u64)
        ensures
            n == self@.generation,
    {
        self.generation
    }

    /// Whether pass-through of a device ended with its node vanishing.
    pub fn passthrough_was_lost(&self, vendor: u16, product: u16) -> (r: bool)
        ensures
            r == self@.lost.contains(usb_id(vendor, product)),
    {
        self.lost.contains(&make_usb_id(vendor, product))
    }

    /// Records that a device is passed through.
    pub fn mark_grabbed(&mut self, node: &str, vendor: u16, product: u16)
        requires
            old(self).wf(),
        ensures
            final(self).wf(),
            final(self)@ == old(self)@.with_grabbed(node@, vendor, product),
    {
        self.grabs.insert(node, make_usb_id(vendor, product));
        self.active_nodes.insert(node);
        self.lost.remove(&make_usb_id(vendor, product));
        self.generation = self.generation.wrapping_add(1);
    }

    /// Records that a passed-through device vanished.
    pub fn mark_lost(&mut self, vendor: u16, product: u16)
        requires
            old(self).wf(),
        ensures
            final(self).wf(),
            final(self)@ == (SharedView {
                lost: old(self)@.lost.insert(usb_id(vendor, product)),
                ..old(self)@
            }),
    {
        self.lost.insert(make_usb_id(vendor, product));
    }

    /// Records that a device is no longer passed through.
    pub fn unmark_grabbed(&mut self, node: &str, vendor: u16, product: u16)
        requires
            old(self).wf(),
        ensures
            final(self).wf(),
            final(self)@ == old(self)@.without_grabbed(node@, vendor, product),
    {
        self.grabs.remove(node, make_usb_id(vendor, product));
        self.active_nodes.remove(node);
        self.generation = self.generation.wrapping_add(1);
    }

    /// Records that a device is claimed without an evdev node.
    pub fn mark_claimed(&mut self, vendor: u16, product: u16)
        requires
            old(self).wf(),
        ensures
            final(self).wf(),
            final(self)@ == old(self)@.with_claimed(vendor, product),
    {
        self.claims.insert(make_usb_id(vendor, product));
        self.generation = self.generation.wrapping_add(1);
    }

    /// Records that a device is no longer claimed.
    pub fn unmark_claimed(&mut self, vendor: u16, product: u16)
        requires
            old(self).wf(),
        ensures
            final(self).wf(),
            final(self)@ == old(self)@.without_claimed(vendor, product),
    {
        self.claims.remove(&make_usb_id(vendor, product));
        self.generation = self.generation.wrapping_add(1);
    }

    /// Whether a pass-through reader owns a node.
    pub fn is_active_node(&self, node: &str) -> (r: bool)
        ensures
            r == self@.active_nodes.contains(node@),
    {
        self.active_nodes.contains(node)
    }

    /// How many nodes have a pass-through reader.
    pub fn active_node_count(&self) -> (n: usize)
        requires
            self.wf(),
        ensures
            n == self@.active_nodes.len(),
    {
        self.active_nodes.len()
    }

    /// Records a node that the scanner leaves alone.
    pub fn mark_ignored(&mut self, node: &str)
        requires
            old(self).wf(),
        ensures
            final(self).wf(),
            final(self)@ == old(self)@.with_ignored(node@),
    {
        self.ignored_nodes.insert(node);
    }

    /// Whether the scanner leaves a node alone.
    pub fn is_ignored(&self, node: &str) -> (r: bool)
        ensures
            r == self@.ignored_nodes.contains(node@),
    {
        self.ignored_nodes.contains(node)
    }

    /// Drops the records of nodes that no longer exist, so that a device
    /// plugged in again is looked at again.
    pub fn prune_ignored(&mut self, existing: &Vec<String>)
        requires
            old(self).wf(),
        ensures
            final(self).wf(),
            final(self)@ == (SharedView {
                ignored_nodes: old(self)@.ignored_nodes.intersect(
                    string_views(existing@).to_set(),
                ),
                ..old(self)@
            }),
    {
        self.ignored_nodes.retain_listed(existing);
    }

    /// Whether the scanner should claim a node: it has no reader, is not left
    /// alone, and has the keys of a gamepad.
    pub fn should_claim(&self, node: &str, keys: Option<&Vec<u16>>) -> (r: bool)
        ensures
            r == (!self@.active_nodes.contains(node@) && !self@.ignored_nodes.contains(node@)
                && (keys matches Some(k) && k@.contains(BTN_SOUTH))),
    {
        if self.is_active_node(node) || self.is_ignored(node) {
            return false;
        }
        match keys {
            Some(keys) => is_gamepad(keys),
            None => false,
        }
    }

    /// Before a node is grabbed: a Valve controller is left to emulation,
    /// since a clone of it is invisible to games. Returns whether to go on.
    pub fn before_grab(&mut self, node: &str, vendor: u16) -> (go_on: bool)
        requires
            old(self).wf(),
        ensures
            final(self).wf(),
            go_on == (vendor != VALVE_VENDOR_ID),
            final(self)@ == (if go_on {
                old(self)@
            } else {
                old(self)@.with_ignored(node@)
            }),
    {
        if vendor == VALVE_VENDOR_ID {
            self.mark_ignored(node);
            return false;
        }
        true
    }

    /// After the attempt to grab a node: one that failed leaves the device to
    /// emulation; one that worked gives it a slot, if there is one.
    pub fn after_grab(&mut self, node: &str, descriptor: &GamepadDescriptor, grabbed: bool) -> (
        outcome: ClaimOutcome)
        requires
            old(self).wf(),
        ensures
            final(self).wf(),
            ({
                let key = PadKeyView::Evdev(node@);
                let (slots, got) = allocated(old(self)@.slots, key);
                let held = SharedView { slots, ..old(self)@ };
                if !grabbed {
                    outcome == ClaimOutcome::Ignored && final(self)@ == old(self)@.with_ignored(
                        node@,
                    )
                } else {
                    match got {
                        Some(pad) => outcome == ClaimOutcome::Claimed(pad as u8) && final(self)@
                            == held.with_grabbed(node@, descriptor.vendor, descriptor.product),
                        None => outcome == ClaimOutcome::Ungrab && final(self)@ == old(self)@,
                    }
                }
            }),
    {
        if !grabbed {
            self.mark_ignored(node);
            return ClaimOutcome::Ignored;
        }
        let key = PadKey::Evdev(copy_text(node));
        match self.allocate(&key) {
            Some(pad) => {
                self.mark_grabbed(node, descriptor.vendor, descriptor.product);
                ClaimOutcome::Claimed(pad)
            },
            None => ClaimOutcome::Ungrab,
        }
    }

    /// A reader ends: its slot and its grab are given back.
    pub fn reader_ended(&mut self, node: &str, vendor: u16, product: u16)
        requires
            old(self).wf(),
        ensures
            final(self).wf(),
            final(self)@ == (SharedView {
                slots: released(old(self)@.slots, PadKeyView::Evdev(node@)).0,
                ..old(self)@
            }).without_grabbed(node@, vendor, product),
    {
        let key = PadKey::Evdev(copy_text(node));
        let _ = self.release(&key);
        self.unmark_grabbed(node, vendor, product);
    }
}

/// What came of claiming a gamepad.
#[derive(Debug, Clone, Copy, PartialEq, Eq, Structural)]
pub enum ClaimOutcome {
    /// It is left to emulation.
    Ignored,
    /// All slots are taken: let go of it.
    Ungrab,
    /// It got this slot, and is to be announced.
    Claimed(u8),
}

/// Whether a key set describes a gamepad.
pub fn is_gamepad(keys: &Vec<u16>) -> (r: bool)
    ensures
        r == keys@.contains(BTN_SOUTH),
{
    let mut n: usize = 0;
    while n < keys.len()
        invariant
            n <= keys.len(),
            forall|i: int| 0 <= i < n ==> keys@[i] != BTN_SOUTH,
        decreases keys.len() - n,
    {
        if keys[n] == BTN_SOUTH {
            return true;
        }
        n = n + 1;
    }
    false
}

/// Whether a key set has both volume keys.
pub fn has_volume_keys(keys: &Vec<u16>) -> (r: bool)
    ensures
        r == (keys@.contains(KEY_VOLUMEUP) && keys@.contains(KEY_VOLUMEDOWN)),
{
    let mut up: bool = false;
    let mut down: bool = false;
    let mut n: usize = 0;
    while n < keys.len()
        invariant
            n <= keys.len(),
            up <==> exists|i: int| 0 <= i < n && keys@[i] == KEY_VOLUMEUP,
            down <==> exists|i: int| 0 <= i < n && keys@[i] == KEY_VOLUMEDOWN,
        decreases keys.len() - n,
    {
        if keys[n] == KEY_VOLUMEUP {
            up = true;
        }
        if keys[n] == KEY_VOLUMEDOWN {
            down = true;
        }
        n = n + 1;
    }
    up && down
}

/// The description of a gamepad from what its device reports. A device
/// without a name gets one.
pub fn build_descriptor(
    name: Option<&str>,
    bus_type: u16,
    vendor: u16,
    product: u16,
    version: u16,
    keys: Vec<u16>,
    abs_axes: Vec<AbsAxisSpec>,
) -> (descriptor: GamepadDescriptor)
    ensures
        descriptor@ == (GamepadDescriptorView {
            name: match name {
                Some(n) => n@,
                None => "Unknown Gamepad"@,
            },
            bus_type,
            vendor,
            product,
            version,
            keys: keys@,
            abs_axes: abs_axes@,
        }),
{
    GamepadDescriptor {
        name: match name {
            Some(n) => copy_text(n),
            None => copy_text("Unknown Gamepad"),
        },
        bus_type,
        vendor,
        product,
        version,
        keys,
        abs_axes,
    }
}

/// The event is forwarded: it is a key or an axis.
pub open spec fn is_forwarded(event: RawGamepadEvent) -> bool {
    event.event_type == EV_KEY || event.event_type == EV_ABS
}

/// Takes the events that a gamepad reported at `now`: the keys and axes
/// among them are forwarded as one event, and the quit chord sees the keys.
pub fn read_events_at(
    chord: &mut QuitChord,
    pad: u8,
    events: &Vec<RawGamepadEvent>,
    now: u64,
) -> (forward: Option<InputEvent>)
    ensures
        ({
            let kept = events@.filter(|e: RawGamepadEvent| is_forwarded(e));
            &&& final(chord)@ == old(chord)@.after_events(kept, BTN_SELECT, BTN_START, now)
            &&& match forward {
                Some(e) => kept.len() > 0 && e@ == (InputView::GamepadPassthroughEvents {
                    pad,
                    events: kept,
                }),
                None => kept.len() == 0,
            }
        }),
{
    let ghost p = |e: RawGamepadEvent| is_forwarded(e);
    let mut kept: Vec<RawGamepadEvent> = Vec::new();
    let mut n: usize = 0;
    proof {
        reveal(Seq::filter);
        assert(events@.take(0) =~= Seq::empty());
    }
    while n < events.len()
        invariant
            n <= events.len(),
            p == (|e: RawGamepadEvent| is_forwarded(e)),
            kept@ == events@.take(n as int).filter(p),
            chord@ == old(chord)@.after_events(kept@, BTN_SELECT, BTN_START, now),
        decreases events.len() - n,
    {
        let event: RawGamepadEvent = events[n];
        proof {
            reveal(Seq::filter);
            assert(events@.take(n + 1).drop_last() =~= events@.take(n as int));
            assert(events@.take(n + 1).last() == event);
        }
        if event.event_type == EV_KEY || event.event_type == EV_ABS {
            let ghost before = kept@;
            chord.key_event_at(&event, BTN_SELECT, BTN_START, now);
            kept.push(event);
            assert(kept@.drop_last() =~= before);
        }
        n = n + 1;
    }
    assert(events@.take(n as int) =~= events@);
    if kept.len() == 0 {
        None
    } else {
        Some(InputEvent::GamepadPassthroughEvents { pad, events: kept })
    }
}

/// Takes the events that the volume keys reported at `now`: volume down and
/// up together are the chord of a handed-over controller.
pub fn read_volume_keys_at(chord: &mut QuitChord, events: &Vec<RawGamepadEvent>, now: u64)
    ensures
        final(chord)@ == old(chord)@.after_events(events@, KEY_VOLUMEDOWN, KEY_VOLUMEUP, now),
{
    let mut n: usize = 0;
    assert(events@.take(0) =~= Seq::empty());
    while n < events.len()
        invariant
            n <= events.len(),
            chord@ == old(chord)@.after_events(
                events@.take(n as int),
                KEY_VOLUMEDOWN,
                KEY_VOLUMEUP,
                now,
            ),
        decreases events.len() - n,
    {
        proof {
            assert(events@.take(n + 1).drop_last() =~= events@.take(n as int));
            assert(events@.take(n + 1).last() == events@[n as int]);
        }
        chord.key_event_at(&events[n], KEY_VOLUMEDOWN, KEY_VOLUMEUP, now);
        n = n + 1;
    }
    assert(events@.take(n as int) =~= events@);
}

/// Requests the end of the session if the chord has fired and nobody did
/// so before. Returns whether it did.
pub fn check_chord_at(shared: &mut SharedGamepads, chord: &QuitChord, now: u64) -> (fired: bool)
    requires
        old(shared).wf(),
    ensures
        final(shared).wf(),
        fired == (chord@.fired(now) && !old(shared)@.quit_requested),
        final(shared)@ == (SharedView {
            quit_requested: old(shared)@.quit_requested || chord@.fired(now),
            ..old(shared)@
        }),
{
    if chord.fired_at(now) && !shared.quit_requested() {
        shared.request_quit();
        return true;
    }
    false
}

/// There is a slot for each gamepad, and no owner has two.
pub proof fn law_owners_distinct(shared: &SharedGamepads)
    requires
        shared.wf(),
    ensures
        shared@.slots.len() == MAX_GAMEPADS,
        keys_distinct(shared@.slots),
{
}

/// A claim and the end of its reader leave nothing grabbed and no slot
/// taken that were free before.
pub proof fn law_reader_gives_back(
    s: SharedView,
    node: Seq<char>,
    vendor: u16,
    product: u16,
)
    requires
        keys_distinct(s.slots),
        slot_of(s.slots, PadKeyView::Evdev(node)) is None,
        free_slot(s.slots) is Some,
        !s.grabs.contains((node, usb_id(vendor, product))),
        !s.active_nodes.contains(node),
    ensures
        ({
            let key = PadKeyView::Evdev(node);
            let held = (SharedView {
                slots: allocated(s.slots, key).0,
                ..s
            }).with_grabbed(node, vendor, product);
            let after = (SharedView {
                slots: released(held.slots, key).0,
                ..held
            }).without_grabbed(node, vendor, product);
            &&& after.slots == s.slots
            &&& after.grabs == s.grabs
            &&& after.claims == s.claims
            &&& after.active_nodes == s.active_nodes
        }),
{
    let key = PadKeyView::Evdev(node);
    let held = (SharedView { slots: allocated(s.slots, key).0, ..s }).with_grabbed(
        node,
        vendor,
        product,
    );
    crate::slots::law_allocated_slot_is_held(s.slots, key);
    lemma_first_where(s.slots, |x: Option<PadKeyView>| x is None);
    let i = free_slot(s.slots)->0;
    assert(slot_of(held.slots, key) == Some(i));
    assert(released(held.slots, key).0 =~= s.slots);
    assert(held.grabs.remove((node, usb_id(vendor, product))) =~= s.grabs);
    assert(held.active_nodes.remove(node) =~= s.active_nodes);
}

/// What happened to the reader of a gamepad.
pub enum ReaderEvent {
    /// A round begins.
    Round,
    /// The session ends.
    Stop,
    /// The device reported events.
    Events(Vec<RawGamepadEvent>),
    /// The device is gone.
    Failed,
    /// Nobody takes events any more.
    Closed,
}

/// What the reader of a gamepad does next.
pub enum ReaderAction {
    /// Wait for events.
    Wait,
    /// Forward an event, and go on.
    Forward(InputEvent),
    /// End: let go of the device if it is still there, and forward a last
    /// event if there is one.
    End { ungrab: bool, last: Option<InputEvent> },
}

/// What a [`ReaderAction`] says.
#[verifier::ext_equal]
pub enum ReaderActionView {
    Wait,
    Forward(InputView),
    End { ungrab: bool, last: Option<InputView> },
}

impl View for ReaderAction {
    type V = ReaderActionView;

    open spec fn view(&self) -> ReaderActionView {
        match self {
            ReaderAction::Wait => ReaderActionView::Wait,
            ReaderAction::Forward(event) => ReaderActionView::Forward(event@),
            ReaderAction::End { ungrab, last } => ReaderActionView::End {
                ungrab: *ungrab,
                last: match last {
                    Some(event) => Some(event@),
                    None => None,
                },
            },
        }
    }
}

/// The reader of a gamepad that is passed through.
pub struct PadReader {
    node: String,
    pad: u8,
    vendor: u16,
    product: u16,
    chord: QuitChord,
}

/// What a [`PadReader`] holds.
#[verifier::ext_equal]
pub struct ReaderView {
    pub node: Seq<char>,
    pub pad: u8,
    pub vendor: u16,
    pub product: u16,
    pub chord: ChordView,
}

impl View for PadReader {
    type V = ReaderView;

    closed spec fn view(&self) -> ReaderView {
        ReaderView {
            node: self.node@,
            pad: self.pad,
            vendor: self.vendor,
            product: self.product,
            chord: self.chord@,
        }
    }
}

impl ReaderView {
    /// The registry without the device: its slot and its grab are given back.
    pub open spec fn given_back(self, shared: SharedView) -> SharedView {
        (SharedView {
            slots: released(shared.slots, PadKeyView::Evdev(self.node)).0,
            ..shared
        }).without_grabbed(self.node, self.vendor, self.product)
    }

    /// Reader and registry after an event at `now`, and what to do.
    pub open spec fn step(self, shared: SharedView, event: ReaderEvent, now: u64) -> (
        ReaderView,
        SharedView,
        ReaderActionView,
    ) {
        match event {
            ReaderEvent::Round => (
                self,
                SharedView {
                    quit_requested: shared.quit_requested || self.chord.fired(now),
                    ..shared
                },
                ReaderActionView::Wait,
            ),
            ReaderEvent::Stop => (
                self,
                self.given_back(shared),
                ReaderActionView::End { ungrab: true, last: None },
            ),
            ReaderEvent::Events(events) => {
                let kept = events@.filter(|e: RawGamepadEvent| is_forwarded(e));
                (
                    ReaderView {
                        chord: self.chord.after_events(kept, BTN_SELECT, BTN_START, now),
                        ..self
                    },
                    shared,
                    if kept.len() == 0 {
                        ReaderActionView::Wait
                    } else {
                        ReaderActionView::Forward(
                            InputView::GamepadPassthroughEvents { pad: self.pad, events: kept },
                        )
                    },
                )
            },
            ReaderEvent::Failed => (
                self,
                self.given_back(
                    SharedView {
                        lost: shared.lost.insert(usb_id(self.vendor, self.product)),
                        ..shared
                    },
                ),
                ReaderActionView::End {
                    ungrab: false,
                    last: Some(InputView::GamepadDisconnected { pad: self.pad }),
                },
            ),
            ReaderEvent::Closed => (
                self,
                self.given_back(shared),
                ReaderActionView::End { ungrab: false, last: None },
            ),
        }
    }
}

impl PadReader {
    /// The reader of a device in a slot, with no button held.
    pub fn new(node: &str, pad: u8, vendor: u16, product: u16) -> (reader: PadReader)
        ensures
            reader@ == (ReaderView {
                node: node@,
                pad,
                vendor,
                product,
                chord: ChordView { select_since: None, start_since: None },
            }),
    {
        PadReader { node: copy_text(node), pad, vendor, product, chord: QuitChord::default() }
    }

    /// Takes an event at `now`. A round checks the quit chord, so that it
    /// fires although the device is quiet.
    pub fn handle_at(&mut self, shared: &mut SharedGamepads, event: ReaderEvent, now: u64) -> (
        action: ReaderAction)
        requires
            old(shared).wf(),
        ensures
            final(shared).wf(),
            (final(self)@, final(shared)@, action@) == old(self)@.step(old(shared)@, event, now),
    {
        match event {
            ReaderEvent::Round => {
                let _ = check_chord_at(shared, &self.chord, now);
                ReaderAction::Wait
            },
            ReaderEvent::Stop => {
                shared.reader_ended(self.node.as_str(), self.vendor, self.product);
                ReaderAction::End { ungrab: true, last: None }
            },
            ReaderEvent::Events(events) => {
                match read_events_at(&mut self.chord, self.pad, &events, now) {
                    Some(forward) => ReaderAction::Forward(forward),
                    None => ReaderAction::Wait,
                }
            },
            ReaderEvent::Failed => {
                shared.mark_lost(self.vendor, self.product);
                shared.reader_ended(self.node.as_str(), self.vendor, self.product);
                ReaderAction::End {
                    ungrab: false,
                    last: Some(InputEvent::GamepadDisconnected { pad: self.pad }),
                }
            },
            ReaderEvent::Closed => {
                shared.reader_ended(self.node.as_str(), self.vendor, self.product);
                ReaderAction::End { ungrab: false, last: None }
            },
        }
    }

    /// The time that the reader's chord reads.
    pub fn now(&self) -> u64 {
        self.chord.now()
    }
}

/// However a reader ends, its device is not grabbed any more, its node has no
/// reader, and its slot is free; a device that is gone is remembered as lost.
/// Its ids stay taken exactly if another device with them is grabbed or
/// claimed.
pub proof fn law_ended_reader_holds_nothing(
    r: ReaderView,
    shared: SharedView,
    event: ReaderEvent,
    now: u64,
)
    requires
        r.step(shared, event, now).2 is End,
        keys_distinct(shared.slots),
    ensures
        ({
            let after = r.step(shared, event, now).1;
            &&& !after.grabs.contains((r.node, usb_id(r.vendor, r.product)))
            &&& after.holds(r.vendor, r.product) <==> shared.claims.contains(
                usb_id(r.vendor, r.product),
            ) || exists|node: Seq<char>|
                node != r.node && #[trigger] shared.grabs.contains(
                    (node, usb_id(r.vendor, r.product)),
                )
            &&& !after.active_nodes.contains(r.node)
            &&& slot_of(after.slots, PadKeyView::Evdev(r.node)) is None
            &&& event is Failed ==> after.lost.contains(usb_id(r.vendor, r.product))
        }),
{
    crate::slots::law_released_slot_is_free(shared.slots, PadKeyView::Evdev(r.node));
    let after = r.step(shared, event, now).1;
    let id = usb_id(r.vendor, r.product);
    assert forall|node: Seq<char>| #[trigger] after.grabs.contains((node, id)) <==> node != r.node
        && shared.grabs.contains((node, id)) by {}
    if exists|node: Seq<char>| node != r.node && #[trigger] shared.grabs.contains((node, id)) {
        let node = choose|node: Seq<char>|
            node != r.node && #[trigger] shared.grabs.contains((node, id));
        assert(after.grabs.contains((node, id)));
    }
}

/// The vendor and product id in an SDL joystick GUID, which holds them at
/// bytes 4 and 8, lowest first.
pub fn guid_vendor_product(guid: &[u8; 16]) -> (r: (u16, u16))
    ensures
        r.0 == guid@[4] + 256 * guid@[5],
        r.1 == guid@[8] + 256 * guid@[9],
{
    let vendor: u16 = guid[4] as u16 + 256 * guid[5] as u16;
    let product: u16 = guid[8] as u16 + 256 * guid[9] as u16;
    (vendor, product)
}

} // verus!
