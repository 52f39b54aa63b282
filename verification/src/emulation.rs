//! Controllers that the server emulates: which of the controllers that the
//! window sees are, their slots in the shared table, and their quit chords.
use crate::gamepad::{ChordView, PadKey, PadKeyView, QuitChord, SharedGamepads, SharedView};
use crate::slots::{
    allocated, first_where, keys_distinct, lemma_first_where, lemma_first_where_at,
    lemma_slots_stay_distinct, released, slot_of,
};
use crate::ui::Button;
use vstd::prelude::*;

verus! {

/// What became of a controller that was plugged in.
#[derive(Debug, Clone, Copy, PartialEq, Eq, Structural)]
pub enum PadAdded {
    /// No controller is emulated in this session.
    NotEmulated,
    /// It was connected before.
    AlreadyOpen,
    /// It is passed through.
    PassedThrough,
    /// All slots are taken.
    Full,
    /// It got this slot, and is to be announced.
    Connected(u8),
}

/// A controller that was closed: the window's name for it, and the slot that
/// it had.
#[derive(Debug, Clone, Copy, PartialEq, Eq, Structural)]
pub struct Closed {
    pub id: u32,
    pub pad: Option<u8>,
}

struct EmulatedPad {
    id: u32,
    vendor: u16,
    product: u16,
    chord: QuitChord,
}

/// The controllers that are emulated.
pub struct EmulatedPads {
    emulate: bool,
    pads: Vec<EmulatedPad>,
    generation: u64,
}

/// An emulated controller.
#[verifier::ext_equal]
pub struct EmulatedView {
    /// The window's name for it.
    pub id: u32,
    pub vendor: u16,
    pub product: u16,
    /// The buttons that end the session.
    pub chord: ChordView,
}

/// What an [`EmulatedPads`] holds.
#[verifier::ext_equal]
pub struct EmulationView {
    /// Controllers are emulated in this session.
    pub emulate: bool,
    /// The emulated controllers.
    pub pads: Seq<EmulatedView>,
    /// How far the changes of the shared table were followed.
    pub generation: u64,
}

impl View for EmulatedPad {
    type V = EmulatedView;

    closed spec fn view(&self) -> EmulatedView {
        EmulatedView {
            id: self.id,
            vendor: self.vendor,
            product: self.product,
            chord: self.chord@,
        }
    }
}

impl View for EmulatedPads {
    type V = EmulationView;

    closed spec fn view(&self) -> EmulationView {
        EmulationView {
            emulate: self.emulate,
            pads: Seq::new(self.pads@.len(), |i: int| self.pads@[i]@),
            generation: self.generation,
        }
    }
}

/// The number of a slot.
pub open spec fn pad_number(slot: Option<int>) -> Option<u8> {
    match slot {
        Some(n) => Some(n as u8),
        None => None,
    }
}

/// The table without the slot of a controller.
pub open spec fn without_pad(shared: SharedView, id: u32) -> SharedView {
    SharedView { slots: released(shared.slots, PadKeyView::Sdl(id)).0, ..shared }
}

/// The slot of a controller that is closed.
pub open spec fn closed_pad(shared: SharedView, id: u32) -> Closed {
    Closed { id, pad: pad_number(released(shared.slots, PadKeyView::Sdl(id)).1) }
}

/// Of some controllers, those that stay emulated; the table without the
/// others; and those, in order.
pub open spec fn swept(pads: Seq<EmulatedView>, shared: SharedView) -> (
    Seq<EmulatedView>,
    SharedView,
    Seq<Closed>,
)
    decreases pads.len(),
{
    if pads.len() == 0 {
        (seq![], shared, seq![])
    } else {
        let (kept, table, closed) = swept(pads.drop_last(), shared);
        let p = pads.last();
        if table.holds(p.vendor, p.product) {
            (kept, without_pad(table, p.id), closed.push(closed_pad(table, p.id)))
        } else {
            (kept.push(p), table, closed)
        }
    }
}

impl EmulationView {
    /// The place of a controller among the emulated ones.
    pub open spec fn place(self, id: u32) -> Option<int> {
        first_where(self.pads, |p: EmulatedView| p.id == id)
    }

    /// A controller was plugged in: one that is passed through is not
    /// emulated, any other gets the lowest free slot.
    pub open spec fn added(self, shared: SharedView, id: u32, vendor: u16, product: u16) -> (
        EmulationView,
        SharedView,
        PadAdded,
    ) {
        if !self.emulate {
            (self, shared, PadAdded::NotEmulated)
        } else if self.place(id) is Some {
            (self, shared, PadAdded::AlreadyOpen)
        } else if shared.holds(vendor, product) {
            (self, shared, PadAdded::PassedThrough)
        } else {
            let (slots, got) = allocated(shared.slots, PadKeyView::Sdl(id));
            match got {
                Some(pad) => (
                    EmulationView {
                        pads: self.pads.push(
                            EmulatedView {
                                id,
                                vendor,
                                product,
                                chord: ChordView { select_since: None, start_since: None },
                            },
                        ),
                        ..self
                    },
                    SharedView { slots, ..shared },
                    PadAdded::Connected(pad as u8),
                ),
                None => (self, shared, PadAdded::Full),
            }
        }
    }

    /// A controller was unplugged.
    pub open spec fn removed(self, shared: SharedView, id: u32) -> (
        EmulationView,
        SharedView,
        Option<u8>,
    ) {
        let rest = match self.place(id) {
            Some(i) => self.pads.remove(i),
            None => self.pads,
        };
        (
            EmulationView { pads: rest, ..self },
            without_pad(shared, id),
            closed_pad(shared, id).pad,
        )
    }

    /// The changes of the shared table are followed: controllers that are
    /// passed through by now are closed.
    pub open spec fn followed(self, shared: SharedView) -> (
        EmulationView,
        SharedView,
        Seq<Closed>,
    ) {
        if self.generation == shared.generation {
            (self, shared, seq![])
        } else {
            let (kept, table, closed) = swept(self.pads, shared);
            (
                EmulationView { pads: kept, generation: shared.generation, ..self },
                table,
                closed,
            )
        }
    }

    /// A button of a controller was pressed or released.
    pub open spec fn button(self, id: u32, button: Button, pressed: bool, now: u64) -> EmulationView {
        match self.place(id) {
            Some(i) => {
                let p = self.pads[i];
                let chord = match button {
                    Button::Back => p.chord.select(pressed, now),
                    Button::Start => p.chord.start(pressed, now),
                    _ => p.chord,
                };
                EmulationView { pads: self.pads.update(i, EmulatedView { chord, ..p }), ..self }
            },
            None => self,
        }
    }

    /// The quit chord fired on some controller.
    pub open spec fn fired(self, now: u64) -> bool {
        exists|i: int| 0 <= i < self.pads.len() && (#[trigger] self.pads[i]).chord.fired(now)
    }
}

impl EmulatedPads {
    /// No controller is connected; `emulate` tells whether any will be
    /// emulated.
    pub fn new(emulate: bool) -> (pads: EmulatedPads)
        ensures
            pads@ == (EmulationView { emulate, pads: seq![], generation: 0 }),
    {
        let pads = EmulatedPads { emulate, pads: Vec::new(), generation: 0 };
        assert(pads@.pads =~= seq![]);
        pads
    }

    fn find(&self, id: u32) -> (place: Option<usize>)
        ensures
            match place {
                Some(i) => self@.place(id) == Some(i as int) && i < self.pads.len(),
                None => self@.place(id) is None,
            },
    {
        let ghost p = |v: EmulatedView| v.id == id;
        let mut n: usize = 0;
        while n < self.pads.len()
            invariant
                n <= self.pads.len(),
                p == (|v: EmulatedView| v.id == id),
                forall|i: int| 0 <= i < n ==> !p(#[trigger] self@.pads[i]),
            decreases self.pads.len() - n,
        {
            assert(self@.pads[n as int] == self.pads@[n as int]@);
            if self.pads[n].id == id {
                proof {
                    lemma_first_where_at(self@.pads, p, n as int);
                }
                return Some(n);
            }
            n = n + 1;
        }
        proof {
            lemma_first_where_at(self@.pads, p, n as int);
        }
        None
    }

    /// A controller was plugged in.
    pub fn add(&mut self, shared: &mut SharedGamepads, id: u32, vendor: u16, product: u16) -> (
        added: PadAdded)
        requires
            old(shared).wf(),
        ensures
            final(shared).wf(),
            (final(self)@, final(shared)@, added) == old(self)@.added(
                old(shared)@,
                id,
                vendor,
                product,
            ),
    {
        if !self.emulate {
            return PadAdded::NotEmulated;
        }
        if self.find(id).is_some() {
            return PadAdded::AlreadyOpen;
        }
        if shared.is_grabbed(vendor, product) {
            return PadAdded::PassedThrough;
        }
        match shared.allocate(&PadKey::Sdl(id)) {
            Some(pad) => {
                self.pads.push(EmulatedPad { id, vendor, product, chord: QuitChord::default() });
                assert(self@.pads =~= old(self)@.pads.push(
                    EmulatedView {
                        id,
                        vendor,
                        product,
                        chord: ChordView { select_since: None, start_since: None },
                    },
                ));
                PadAdded::Connected(pad)
            },
            None => PadAdded::Full,
        }
    }

    /// A controller was unplugged. Returns the slot that it had.
    pub fn remove(&mut self, shared: &mut SharedGamepads, id: u32) -> (pad: Option<u8>)
        requires
            old(shared).wf(),
        ensures
            final(shared).wf(),
            (final(self)@, final(shared)@, pad) == old(self)@.removed(old(shared)@, id),
    {
        if let Some(i) = self.find(id) {
            let _ = self.pads.remove(i);
            assert(self@.pads =~= old(self)@.pads.remove(i as int));
        }
        shared.release(&PadKey::Sdl(id))
    }

    /// Follows the changes of the shared table: closes the controllers that
    /// are passed through by now, and returns them.
    pub fn follow(&mut self, shared: &mut SharedGamepads) -> (closed: Vec<Closed>)
        requires
            old(shared).wf(),
        ensures
            final(shared).wf(),
            (final(self)@, final(shared)@, closed@) == old(self)@.followed(old(shared)@),
    {
        let mut closed: Vec<Closed> = Vec::new();
        let generation: u64 = shared.generation();
        if self.generation == generation {
            return closed;
        }
        let ghost views = self@.pads;
        let ghost mut done: int = 0;
        let mut n: usize = 0;
        proof {
            assert(views.take(0) =~= seq![]);
            assert(self@.pads =~= Seq::<EmulatedView>::empty() + views.skip(0));
        }
        while n < self.pads.len()
            invariant
                n <= self.pads.len(),
                0 <= done <= views.len(),
                self.emulate == old(self)@.emulate,
                shared.wf(),
                n == swept(views.take(done), old(shared)@).0.len(),
                self@.pads == swept(views.take(done), old(shared)@).0 + views.skip(done),
                (shared@, closed@) == (
                    swept(views.take(done), old(shared)@).1,
                    swept(views.take(done), old(shared)@).2,
                ),
            decreases self.pads.len() - n,
        {
            let ghost kept = swept(views.take(done), old(shared)@).0;
            proof {
                assert(views.take(done + 1).drop_last() =~= views.take(done));
                assert(views.take(done + 1).last() == views[done]);
                assert(self@.pads[n as int] == views[done]);
                assert(self@.pads[n as int] == self.pads@[n as int]@);
            }
            let id: u32 = self.pads[n].id;
            let taken = shared.is_grabbed(self.pads[n].vendor, self.pads[n].product);
            if taken {
                let had = shared.release(&PadKey::Sdl(id));
                closed.push(Closed { id, pad: had });
                let ghost before = self@.pads;
                let _ = self.pads.remove(n);
                assert(self@.pads =~= before.remove(n as int));
                assert(self@.pads =~= kept + views.skip(done + 1));
            } else {
                assert(self@.pads =~= kept.push(views[done]) + views.skip(done + 1));
                n = n + 1;
            }
            proof {
                done = done + 1;
            }
        }
        proof {
            assert(views.skip(done).len() == 0);
            assert(done == views.len());
            assert(views.take(done) =~= views);
            assert(self@.pads =~= swept(views, old(shared)@).0);
        }
        self.generation = generation;
        closed
    }

    /// A button of a controller was pressed or released at `now`.
    pub fn button_at(&mut self, id: u32, button: Button, pressed: bool, now: u64)
        ensures
            final(self)@ == old(self)@.button(id, button, pressed, now),
    {
        if let Some(i) = self.find(id) {
            match button {
                Button::Back => self.pads[i].chord.set_select_at(pressed, now),
                Button::Start => self.pads[i].chord.set_start_at(pressed, now),
                _ => {},
            }
            assert(self@.pads =~= old(self)@.button(id, button, pressed, now).pads);
        }
    }

    /// Whether the session is to end at `now`: the quit chord fired on a
    /// controller, here or on one that is passed through.
    pub fn ends_session_at(&self, shared: &SharedGamepads, now: u64) -> (r: bool)
        ensures
            r == (shared@.quit_requested || self@.fired(now)),
    {
        if shared.quit_requested() {
            return true;
        }
        let mut n: usize = 0;
        while n < self.pads.len()
            invariant
                n <= self.pads.len(),
                forall|i: int| 0 <= i < n ==> !(#[trigger] self@.pads[i]).chord.fired(now),
            decreases self.pads.len() - n,
        {
            assert(self@.pads[n as int] == self.pads@[n as int]@);
            if self.pads[n].chord.fired_at(now) {
                return true;
            }
            n = n + 1;
        }
        false
    }
}

proof fn lemma_swept(pads: Seq<EmulatedView>, shared: SharedView)
    requires
        keys_distinct(shared.slots),
    ensures
        keys_distinct(swept(pads, shared).1.slots),
        swept(pads, shared).1.grabs == shared.grabs,
        swept(pads, shared).1.claims == shared.claims,
        swept(pads, shared).1.generation == shared.generation,
        forall|i: int|
            0 <= i < swept(pads, shared).0.len() ==> !shared.holds(
                (#[trigger] swept(pads, shared).0[i]).vendor,
                swept(pads, shared).0[i].product,
            ),
    decreases pads.len(),
{
    if pads.len() > 0 {
        lemma_swept(pads.drop_last(), shared);
        let table = swept(pads.drop_last(), shared).1;
        lemma_slots_stay_distinct(table.slots, PadKeyView::Sdl(pads.last().id));
    }
}

/// A controller that is passed through is not emulated as well: once the
/// changes of the table are followed, none that is grabbed is left.
pub proof fn law_passed_through_not_emulated(v: EmulationView, shared: SharedView, i: int)
    requires
        keys_distinct(shared.slots),
        v.generation != shared.generation,
        0 <= i < v.followed(shared).0.pads.len(),
    ensures
        ({
            let (after, table, closed) = v.followed(shared);
            !table.holds(after.pads[i].vendor, after.pads[i].product)
        }),
{
    lemma_swept(v.pads, shared);
}

/// The two ways of handling a controller share the slots: no slot has two
/// owners, and a new one never gets a slot that is held.
pub proof fn law_slot_has_one_owner(
    slots: Seq<Option<PadKeyView>>,
    a: PadKeyView,
    b: PadKeyView,
    key: PadKeyView,
)
    requires
        keys_distinct(slots),
    ensures
        slot_of(slots, a) is Some && slot_of(slots, a) == slot_of(slots, b) ==> a == b,
        slot_of(slots, a) is Some && a != key ==> allocated(slots, key).1 != slot_of(slots, a),
{
    lemma_first_where(slots, |s: Option<PadKeyView>| s == Some(a));
    lemma_first_where(slots, |s: Option<PadKeyView>| s == Some(b));
    lemma_first_where(slots, |s: Option<PadKeyView>| s == Some(key));
    lemma_first_where(slots, |s: Option<PadKeyView>| s is None);
}

/// Adding a controller and removing it gives its slot back.
pub proof fn law_removed_controller_leaves_nothing(
    v: EmulationView,
    shared: SharedView,
    id: u32,
    vendor: u16,
    product: u16,
)
    requires
        keys_distinct(shared.slots),
        v.added(shared, id, vendor, product).2 is Connected,
        slot_of(shared.slots, PadKeyView::Sdl(id)) is None,
    ensures
        ({
            let (with, table, added) = v.added(shared, id, vendor, product);
            let (after, freed, pad) = with.removed(table, id);
            &&& after == v
            &&& freed == shared
            &&& Some(added->Connected_0) == pad
        }),
{
    let key = PadKeyView::Sdl(id);
    let (with, table, added) = v.added(shared, id, vendor, product);
    crate::slots::law_allocated_slot_is_held(shared.slots, key);
    lemma_first_where(shared.slots, |s: Option<PadKeyView>| s is None);
    lemma_first_where(v.pads, |p: EmulatedView| p.id == id);
    lemma_first_where_at(with.pads, |p: EmulatedView| p.id == id, v.pads.len() as int);
    assert(with.pads.remove(v.pads.len() as int) =~= v.pads);
    assert(released(table.slots, key).0 =~= shared.slots);
}

} // verus!
