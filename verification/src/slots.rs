//! Slot tables and sets of names.
use crate::text::{copy_text, same_text, string_views};
use vstd::prelude::*;

verus! {

/// The first place of a sequence where a condition holds.
pub open spec fn first_where<T>(s: Seq<T>, p: spec_fn(T) -> bool) -> Option<int>
    decreases s.len(),
{
    if s.len() == 0 {
        None
    } else {
        match first_where(s.drop_last(), p) {
            Some(i) => Some(i),
            None => if p(s.last()) {
                Some(s.len() - 1)
            } else {
                None
            },
        }
    }
}

/// The first place is in the sequence, the condition holds there and nowhere
/// before; without one it holds nowhere.
pub proof fn lemma_first_where<T>(s: Seq<T>, p: spec_fn(T) -> bool)
    ensures
        match first_where(s, p) {
            Some(i) => 0 <= i < s.len() && p(s[i]) && forall|j: int|
                0 <= j < i ==> !p(#[trigger] s[j]),
            None => forall|j: int| 0 <= j < s.len() ==> !p(#[trigger] s[j]),
        },
    decreases s.len(),
{
    if s.len() > 0 {
        let front = s.drop_last();
        lemma_first_where(front, p);
        match first_where(front, p) {
            Some(i) => {
                assert(front[i] == s[i]);
                assert forall|j: int| 0 <= j < i implies !p(#[trigger] s[j]) by {
                    assert(front[j] == s[j]);
                }
            },
            None => {
                assert forall|j: int| 0 <= j < front.len() implies !p(#[trigger] s[j]) by {
                    assert(front[j] == s[j]);
                }
            },
        }
    }
}

/// The place where the condition holds and did not before is the first.
pub proof fn lemma_first_where_at<T>(s: Seq<T>, p: spec_fn(T) -> bool, n: int)
    requires
        0 <= n <= s.len(),
        forall|j: int| 0 <= j < n ==> !p(#[trigger] s[j]),
        n < s.len() ==> p(s[n]),
    ensures
        first_where(s, p) == (if n < s.len() {
            Some(n)
        } else {
            None
        }),
{
    lemma_first_where(s, p);
    match first_where(s, p) {
        Some(i) => {
            if i < n {
                assert(!p(s[i]));
            }
            if n < i {
                assert(!p(s[n]));
            }
        },
        None => {
            if n < s.len() {
                assert(!p(s[n]));
            }
        },
    }
}

/// The slot that a key holds.
pub open spec fn slot_of<K>(slots: Seq<Option<K>>, key: K) -> Option<int> {
    first_where(slots, |s: Option<K>| s == Some(key))
}

/// The lowest free slot.
pub open spec fn free_slot<K>(slots: Seq<Option<K>>) -> Option<int> {
    first_where(slots, |s: Option<K>| s is None)
}

/// No key holds two slots.
pub open spec fn keys_distinct<K>(slots: Seq<Option<K>>) -> bool {
    forall|i: int, j: int|
        0 <= i < j < slots.len() && (#[trigger] slots[i]) is Some ==> slots[i]
            != #[trigger] slots[j]
}

/// The slots after a key asked for one: it keeps the one it has, or gets
/// the lowest free one, if there is any.
pub open spec fn allocated<K>(slots: Seq<Option<K>>, key: K) -> (Seq<Option<K>>, Option<int>) {
    match slot_of(slots, key) {
        Some(i) => (slots, Some(i)),
        None => match free_slot(slots) {
            Some(i) => (slots.update(i, Some(key)), Some(i)),
            None => (slots, None),
        },
    }
}

/// The slots after a key gave its slot back.
pub open spec fn released<K>(slots: Seq<Option<K>>, key: K) -> (Seq<Option<K>>, Option<int>) {
    match slot_of(slots, key) {
        Some(i) => (slots.update(i, None), Some(i)),
        None => (slots, None),
    }
}

/// Taking and giving back slots keeps each key to one slot.
pub proof fn lemma_slots_stay_distinct<K>(slots: Seq<Option<K>>, key: K)
    requires
        keys_distinct(slots),
    ensures
        keys_distinct(allocated(slots, key).0),
        keys_distinct(released(slots, key).0),
        allocated(slots, key).0.len() == slots.len(),
        released(slots, key).0.len() == slots.len(),
{
    lemma_first_where(slots, |s: Option<K>| s == Some(key));
    lemma_first_where(slots, |s: Option<K>| s is None);
}

/// A key that got a slot holds it, and nobody else lost theirs.
pub proof fn law_allocated_slot_is_held<K>(slots: Seq<Option<K>>, key: K)
    requires
        keys_distinct(slots),
    ensures
        ({
            let (after, got) = allocated(slots, key);
            &&& got is Some ==> slot_of(after, key) == got
            &&& got is None <==> slot_of(slots, key) is None && free_slot(slots) is None
            &&& forall|i: int|
                0 <= i < slots.len() && (#[trigger] slots[i]) is Some ==> after[i] == slots[i]
        }),
{
    lemma_first_where(slots, |s: Option<K>| s == Some(key));
    lemma_first_where(slots, |s: Option<K>| s is None);
    let (after, got) = allocated(slots, key);
    if let Some(i) = got {
        lemma_slots_stay_distinct(slots, key);
        assert forall|j: int| 0 <= j < i implies after[j] != Some(key) by {
            if slot_of(slots, key) is None {
                assert(after[j] == slots[j]);
            }
        }
        lemma_first_where_at(after, |s: Option<K>| s == Some(key), i);
    }
}

/// A key that gave its slot back holds none, and the slot is free again.
pub proof fn law_released_slot_is_free<K>(slots: Seq<Option<K>>, key: K)
    requires
        keys_distinct(slots),
    ensures
        ({
            let (after, had) = released(slots, key);
            &&& slot_of(after, key) is None
            &&& had matches Some(i) ==> 0 <= i < slots.len() && after[i] is None
            &&& had == slot_of(slots, key)
        }),
{
    lemma_first_where(slots, |s: Option<K>| s == Some(key));
    let (after, had) = released(slots, key);
    assert forall|j: int| 0 <= j < after.len() implies after[j] != Some(key) by {
        if let Some(i) = had {
            if j != i {
                assert(after[j] == slots[j]);
                assert(slots[i] == Some(key));
            }
        }
    }
    lemma_first_where_at(after, |s: Option<K>| s == Some(key), after.len() as int);
}

/// A slot number as it is handed out.
pub open spec fn slot_number(slot: Option<u8>) -> Option<int> {
    match slot {
        Some(i) => Some(i as int),
        None => None,
    }
}

/// A new item behind others that differ from it leaves them distinct.
proof fn lemma_pushed_item<T>(items: Seq<T>, item: T)
    requires
        items.no_duplicates(),
        !items.contains(item),
    ensures
        items.push(item).no_duplicates(),
        items.push(item).to_set() == items.to_set().insert(item),
{
    let after = items.push(item);
    assert forall|x: T| #[trigger] after.contains(x) <==> items.contains(x) || x == item by {
        vstd::seq_lib::lemma_seq_contains_after_push(items, item, x);
    }
    assert forall|i: int, j: int|
        0 <= i < after.len() && 0 <= j < after.len() && i != j implies after[i] != after[j] by {
        if i == items.len() {
            assert(items.contains(items[j]));
        }
        if j == items.len() {
            assert(items.contains(items[i]));
        }
    }
    assert(after.to_set() =~= items.to_set().insert(item));
}

/// Taking an item out of distinct ones takes it out of their set.
proof fn lemma_removed_item<T>(items: Seq<T>, at: int)
    requires
        items.no_duplicates(),
        0 <= at < items.len(),
    ensures
        items.remove(at).no_duplicates(),
        items.remove(at).to_set() == items.to_set().remove(items[at]),
{
    let after = items.remove(at);
    assert forall|x: T| #[trigger] after.contains(x) <==> items.contains(x) && x != items[at] by {
        if after.contains(x) {
            let k = after.index_of(x);
            if k < at {
                assert(items[k] == x);
            } else {
                assert(items[k + 1] == x);
            }
        }
        if items.contains(x) && x != items[at] {
            let k = items.index_of(x);
            if k < at {
                assert(after[k] == x);
            } else {
                assert(after[k - 1] == x);
            }
        }
    }
    assert(after.to_set() =~= items.to_set().remove(items[at]));
}

/// A set of names.
pub struct TextSet {
    items: Vec<String>,
}

impl View for TextSet {
    type V = Set<Seq<char>>;

    closed spec fn view(&self) -> Set<Seq<char>> {
        string_views(self.items@).to_set()
    }
}

impl TextSet {
    /// Every name is kept once.
    pub closed spec fn wf(&self) -> bool {
        string_views(self.items@).no_duplicates()
    }

    /// The empty set.
    pub fn new() -> (set: TextSet)
        ensures
            set.wf(),
            set@ == Set::<Seq<char>>::empty(),
    {
        let set = TextSet { items: Vec::new() };
        assert(set@ =~= Set::empty());
        set
    }

    fn position(&self, name: &str) -> (r: Option<usize>)
        ensures
            match r {
                Some(i) => i < self.items@.len() && self.items@[i as int]@ == name@,
                None => forall|i: int|
                    0 <= i < self.items@.len() ==> (#[trigger] self.items@[i])@ != name@,
            },
    {
        let mut n: usize = 0;
        while n < self.items.len()
            invariant
                n <= self.items.len(),
                forall|i: int| 0 <= i < n ==> (#[trigger] self.items@[i])@ != name@,
            decreases self.items.len() - n,
        {
            if same_text(self.items[n].as_str(), name) {
                return Some(n);
            }
            n = n + 1;
        }
        None
    }

    /// Whether the set has a name.
    pub fn contains(&self, name: &str) -> (r: bool)
        ensures
            r == self@.contains(name@),
    {
        let ghost views = string_views(self.items@);
        match self.position(name) {
            Some(i) => {
                assert(views[i as int] == name@);
                assert(views.contains(name@));
                true
            },
            None => {
                assert(!views.contains(name@)) by {
                    if views.contains(name@) {
                        let i = views.index_of(name@);
                        assert(self.items@[i]@ == name@);
                    }
                }
                false
            },
        }
    }

    /// How many names the set has.
    pub fn len(&self) -> (n: usize)
        requires
            self.wf(),
        ensures
            n == self@.len(),
    {
        proof {
            string_views(self.items@).unique_seq_to_set();
        }
        self.items.len()
    }

    /// Adds a name.
    pub fn insert(&mut self, name: &str)
        requires
            old(self).wf(),
        ensures
            final(self).wf(),
            final(self)@ == old(self)@.insert(name@),
    {
        if !self.contains(name) {
            let ghost before = string_views(self.items@);
            self.items.push(copy_text(name));
            proof {
                assert(string_views(self.items@) =~= before.push(name@));
                assert(!before.contains(name@));
                lemma_pushed_item(before, name@);
            }
        }
        assert(self@ =~= old(self)@.insert(name@));
    }

    /// Takes a name out.
    pub fn remove(&mut self, name: &str)
        requires
            old(self).wf(),
        ensures
            final(self).wf(),
            final(self)@ == old(self)@.remove(name@),
    {
        let ghost before = string_views(self.items@);
        match self.position(name) {
            Some(i) => {
                let _ = self.items.remove(i);
                proof {
                    assert(before[i as int] == name@);
                    assert(string_views(self.items@) =~= before.remove(i as int));
                    lemma_removed_item(before, i as int);
                }
            },
            None => {
                assert(!before.contains(name@)) by {
                    if before.contains(name@) {
                        let k = before.index_of(name@);
                        assert(self.items@[k]@ == name@);
                    }
                }
                assert(self@ =~= old(self)@.remove(name@));
            },
        }
    }

    /// Keeps only the names that a list has.
    pub fn retain_listed(&mut self, names: &Vec<String>)
        requires
            old(self).wf(),
        ensures
            final(self).wf(),
            final(self)@ == old(self)@.intersect(string_views(names@).to_set()),
    {
        let listed = TextSet::from_list(names);
        let mut kept = TextSet::new();
        let mut n: usize = 0;
        let ghost views = string_views(self.items@);
        while n < self.items.len()
            invariant
                n <= self.items.len(),
                views == string_views(self.items@),
                listed@ == string_views(names@).to_set(),
                kept.wf(),
                forall|s: Seq<char>| #[trigger]
                    kept@.contains(s) <==> listed@.contains(s) && views.take(
                        n as int,
                    ).contains(s),
            decreases self.items.len() - n,
        {
            proof {
                assert(views.take(n + 1) =~= views.take(n as int).push(views[n as int]));
                assert forall|s: Seq<char>| #[trigger]
                    views.take(n + 1).contains(s) <==> views.take(n as int).contains(s) || s
                        == views[n as int] by {
                    vstd::seq_lib::lemma_seq_contains_after_push(
                        views.take(n as int),
                        views[n as int],
                        s,
                    );
                }
            }
            if listed.contains(self.items[n].as_str()) {
                kept.insert(self.items[n].as_str());
            }
            n = n + 1;
        }
        proof {
            assert(views.take(n as int) =~= views);
            assert(kept@ =~= self@.intersect(string_views(names@).to_set()));
        }
        self.items = kept.items;
    }

    /// The set of the names in a list.
    pub fn from_list(names: &Vec<String>) -> (set: TextSet)
        ensures
            set.wf(),
            set@ == string_views(names@).to_set(),
    {
        let mut set = TextSet::new();
        let mut n: usize = 0;
        let ghost views = string_views(names@);
        while n < names.len()
            invariant
                n <= names.len(),
                views == string_views(names@),
                set.wf(),
                forall|s: Seq<char>| #[trigger]
                    set@.contains(s) <==> views.take(n as int).contains(s),
            decreases names.len() - n,
        {
            proof {
                assert(views.take(n + 1) =~= views.take(n as int).push(views[n as int]));
                assert forall|s: Seq<char>| #[trigger]
                    views.take(n + 1).contains(s) <==> views.take(n as int).contains(s) || s
                        == views[n as int] by {
                    vstd::seq_lib::lemma_seq_contains_after_push(
                        views.take(n as int),
                        views[n as int],
                        s,
                    );
                }
            }
            set.insert(names[n].as_str());
            n = n + 1;
        }
        assert(views.take(n as int) =~= views);
        assert(set@ =~= views.to_set());
        set
    }
}

/// A device that is grabbed, by its node and its USB id.
struct Grab {
    node: String,
    id: u32,
}

impl View for Grab {
    type V = (Seq<char>, u32);

    closed spec fn view(&self) -> (Seq<char>, u32) {
        (self.node@, self.id)
    }
}

/// The views of some grabs.
spec fn grab_views(grabs: Seq<Grab>) -> Seq<(Seq<char>, u32)> {
    Seq::new(grabs.len(), |i: int| grabs[i]@)
}

/// The devices that are grabbed.
pub struct GrabSet {
    items: Vec<Grab>,
}

impl View for GrabSet {
    type V = Set<(Seq<char>, u32)>;

    closed spec fn view(&self) -> Set<(Seq<char>, u32)> {
        grab_views(self.items@).to_set()
    }
}

impl GrabSet {
    /// Every device is kept once.
    pub closed spec fn wf(&self) -> bool {
        grab_views(self.items@).no_duplicates()
    }

    /// The empty set.
    pub fn new() -> (set: GrabSet)
        ensures
            set.wf(),
            set@ == Set::<(Seq<char>, u32)>::empty(),
    {
        let set = GrabSet { items: Vec::new() };
        assert(set@ =~= Set::empty());
        set
    }

    fn position(&self, node: &str, id: u32) -> (r: Option<usize>)
        ensures
            match r {
                Some(i) => i < self.items@.len() && self.items@[i as int]@ == (node@, id),
                None => !grab_views(self.items@).contains((node@, id)),
            },
    {
        let mut n: usize = 0;
        while n < self.items.len()
            invariant
                n <= self.items.len(),
                forall|i: int| 0 <= i < n ==> (#[trigger] self.items@[i])@ != (node@, id),
            decreases self.items.len() - n,
        {
            if self.items[n].id == id && same_text(self.items[n].node.as_str(), node) {
                return Some(n);
            }
            n = n + 1;
        }
        assert(!grab_views(self.items@).contains((node@, id))) by {
            if grab_views(self.items@).contains((node@, id)) {
                let i = grab_views(self.items@).index_of((node@, id));
                assert(self.items@[i]@ == (node@, id));
            }
        }
        None
    }

    /// Whether some device with a USB id is grabbed.
    pub fn has_id(&self, id: u32) -> (r: bool)
        ensures
            r == exists|node: Seq<char>| #[trigger] self@.contains((node, id)),
    {
        let ghost views = grab_views(self.items@);
        let mut n: usize = 0;
        while n < self.items.len()
            invariant
                n <= self.items.len(),
                views == grab_views(self.items@),
                forall|i: int| 0 <= i < n ==> (#[trigger] views[i]).1 != id,
            decreases self.items.len() - n,
        {
            assert(views[n as int] == self.items@[n as int]@);
            if self.items[n].id == id {
                assert(views.contains(views[n as int]));
                assert(self@.contains((self.items@[n as int].node@, id)));
                return true;
            }
            n = n + 1;
        }
        assert forall|node: Seq<char>| !(#[trigger] self@.contains((node, id))) by {
            if self@.contains((node, id)) {
                let i = views.index_of((node, id));
                assert(views[i].1 == id);
            }
        }
        false
    }

    /// Adds a device.
    pub fn insert(&mut self, node: &str, id: u32)
        requires
            old(self).wf(),
        ensures
            final(self).wf(),
            final(self)@ == old(self)@.insert((node@, id)),
    {
        let ghost before = grab_views(self.items@);
        match self.position(node, id) {
            Some(i) => {
                assert(before[i as int] == (node@, id));
                assert(before.contains((node@, id)));
                assert(self@ =~= old(self)@.insert((node@, id)));
            },
            None => {
                self.items.push(Grab { node: copy_text(node), id });
                proof {
                    assert(grab_views(self.items@) =~= before.push((node@, id)));
                    lemma_pushed_item(before, (node@, id));
                }
            },
        }
    }

    /// Takes a device out.
    pub fn remove(&mut self, node: &str, id: u32)
        requires
            old(self).wf(),
        ensures
            final(self).wf(),
            final(self)@ == old(self)@.remove((node@, id)),
    {
        let ghost before = grab_views(self.items@);
        match self.position(node, id) {
            Some(i) => {
                let _ = self.items.remove(i);
                proof {
                    assert(before[i as int] == (node@, id));
                    assert(grab_views(self.items@) =~= before.remove(i as int));
                    lemma_removed_item(before, i as int);
                }
            },
            None => {
                assert(self@ =~= old(self)@.remove((node@, id)));
            },
        }
    }
}

/// A USB vendor and product id in one number.
pub open spec fn usb_id(vendor: u16, product: u16) -> u32 {
    (vendor * 0x1_0000 + product) as u32
}

/// The number tells vendor and product apart.
pub proof fn lemma_usb_id(vendor: u16, product: u16)
    ensures
        usb_id(vendor, product) as int / 0x1_0000 == vendor,
        usb_id(vendor, product) as int % 0x1_0000 == product,
{
}

/// A USB vendor and product id in one number.
pub fn make_usb_id(vendor: u16, product: u16) -> (id: u32)
    ensures
        id == usb_id(vendor, product),
{
    vendor as u32 * 0x1_0000 + product as u32
}

} // verus!
