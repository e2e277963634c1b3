//! Slabs of values reached by tagged, generational keys.
use vstd::prelude::*;

use self::keys::{bumped, gen_of, index_of, lemma_bump_gen, lemma_key_fields, BaseKey};

pub mod keys;

verus! {

/// The slot that a key reaches: its index, as a `usize`.
pub open spec fn slot_of(key: BaseKey) -> int {
    (index_of(key@) as usize) as int
}

/// A slot of `Slab<T>`: either a value with the generation of the key
/// that reaches it, or a free slot linking to the next free slot.
#[derive(Debug)]
pub enum Entry<T> {
    Occupied { value: T, gen: u16 },
    Vacant(Option<BaseKey>),
}

impl<T> Entry<T> {
    /// Whether the slot holds a value.
    pub fn is_occupied(&self) -> (r: bool)
        ensures
            r == (self is Occupied),
    {
        match self {
            Entry::Occupied { .. } => true,
            Entry::Vacant(_) => false,
        }
    }
}

/// The index a free slot links to, if it is a free slot with a link.
pub open spec fn link_of<T>(e: Entry<T>) -> Option<int> {
    match e {
        Entry::Vacant(Some(k)) => Some(slot_of(k)),
        _ => None,
    }
}

/// A link of the free list is absent, or names a free slot inside the storage.
pub open spec fn link_ok<T>(slots: Seq<Entry<T>>, link: Option<BaseKey>) -> bool {
    match link {
        None => true,
        Some(k) => slot_of(k) < slots.len() && slots[slot_of(k)] is Vacant,
    }
}

/// The number of slots that hold a value.
pub open spec fn occupied_count<T>(slots: Seq<Entry<T>>) -> nat
    decreases slots.len(),
{
    if slots.len() == 0 {
        0
    } else {
        occupied_count(slots.drop_last()) + if slots.last() is Occupied { 1nat } else { 0nat }
    }
}

/// The well-formedness of a free list over `slots` starting at `head`:
/// every link names a free slot, no slot links to itself, no two links
/// name the same slot, and no link names the head.
pub open spec fn free_list_wf<T>(slots: Seq<Entry<T>>, head: Option<BaseKey>) -> bool {
    &&& link_ok(slots, head)
    &&& forall|i: int|
        0 <= i < slots.len() && #[trigger] slots[i] is Vacant ==> link_ok(slots, slots[i]->Vacant_0)
    &&& forall|i: int| 0 <= i < slots.len() ==> #[trigger] link_of(slots[i]) != Some(i)
    &&& forall|i: int, j: int|
        0 <= i < slots.len() && 0 <= j < slots.len() && i != j && (#[trigger] link_of(slots[i]))
            is Some ==> link_of(slots[i]) != #[trigger] link_of(slots[j])
    &&& forall|i: int|
        0 <= i < slots.len() && head is Some ==> #[trigger] link_of(slots[i]) != Some(
            slot_of(head->0),
        )
}

/// A slab of values reached by generational keys: a value is reached by the key that
/// `insert` returned, until `remove` frees its slot and bumps the generation of its key.
#[derive(Debug)]
pub struct Slab<T> {
    inner: Vec<Entry<T>>,
    next_key: Option<BaseKey>,
}

/// `after` is `before` with `value` stored under `key`: the head of the free list
/// is reused when there is one, otherwise a slot is appended under the key
/// whose raw value is the old length.
pub open spec fn inserted<T>(before: Slab<T>, after: Slab<T>, value: T, key: BaseKey) -> bool {
    match before.free_head() {
        None => {
            &&& key@ == before.slots().len() as u64
            &&& after.slots() == before.slots().push(Entry::Occupied { value, gen: gen_of(key@) })
            &&& after.free_head() is None
        },
        Some(h) => {
            &&& key == h
            &&& after.slots() == before.slots().update(
                slot_of(h),
                Entry::Occupied { value, gen: gen_of(h@) },
            )
            &&& after.free_head() == before.slots()[slot_of(h)]->Vacant_0
        },
    }
}

/// `after` is `before` with the slot of `key` freed, its value handed out as `r`:
/// the freed slot becomes the head of the free list under the key with a bumped
/// generation. A key past the end of the storage changes nothing and gives `None`.
pub open spec fn removed<T>(before: Slab<T>, after: Slab<T>, key: BaseKey, r: Option<T>) -> bool {
    if slot_of(key) >= before.slots().len() {
        &&& r is None
        &&& after.slots() == before.slots()
        &&& after.free_head() == before.free_head()
    } else {
        &&& r == before.lookup(key)
        &&& after.slots() == before.slots().update(slot_of(key), Entry::Vacant(before.free_head()))
        &&& after.free_head() matches Some(k) && k@ == bumped(key@)
    }
}

impl<T> Slab<T> {
    /// The slots of the storage.
    pub closed spec fn slots(&self) -> Seq<Entry<T>> {
        self.inner@
    }

    /// The key of the first free slot, which the next `insert` reuses.
    pub closed spec fn free_head(&self) -> Option<BaseKey> {
        self.next_key
    }

    /// The storage's free list is well formed.
    pub open spec fn wf(&self) -> bool {
        &&& free_list_wf(self.slots(), self.free_head())
        &&& self.slots().len() <= usize::MAX
    }

    /// The value that `key` reaches: the slot at its index holds a value
    /// stored under the key's generation.
    pub open spec fn lookup(&self, key: BaseKey) -> Option<T> {
        let i = slot_of(key);
        if i < self.slots().len() {
            match self.slots()[i] {
                Entry::Occupied { value, gen } => if gen == gen_of(key@) {
                    Some(value)
                } else {
                    None
                },
                Entry::Vacant(_) => None,
            }
        } else {
            None
        }
    }

    /// An empty storage.
    pub fn new() -> (r: Self)
        ensures
            r.wf(),
            r.slots() == Seq::<Entry<T>>::empty(),
            r.free_head() is None,
    {
        Slab { inner: Vec::new(), next_key: None }
    }

    /// The key of the first free slot.
    pub fn next_key(&self) -> (r: Option<BaseKey>)
        ensures
            r == self.free_head(),
    {
        self.next_key
    }

    /// Store a value and return the key that reaches it.
    /// A free slot is reused, otherwise a slot is appended.
    pub fn insert(&mut self, value: T) -> (key: BaseKey)
        requires
            old(self).wf(),
        ensures
            final(self).wf(),
            inserted(*old(self), *final(self), value, key),
    {
        match self.next_key.take() {
            None => {
                let key = BaseKey::new(self.inner.len() as u64);
                let gen = key.gen();
                self.inner.push(Entry::Occupied { value, gen });
                proof {
                    let s = self.inner@;
                    let o = old(self).inner@;
                    assert(self.inner.len() == s.len());
                    assert forall|i: int| 0 <= i < s.len() && #[trigger] s[i] is Vacant implies link_ok(
                        s,
                        s[i]->Vacant_0,
                    ) by {
                        assert(s[i] == o[i]);
                    }
                    assert forall|i: int| 0 <= i < s.len() implies #[trigger] link_of(s[i]) != Some(i) by {
                        if i < o.len() {
                            assert(s[i] == o[i]);
                        }
                    }
                    assert forall|i: int, j: int|
                        0 <= i < s.len() && 0 <= j < s.len() && i != j && (#[trigger] link_of(
                            s[i],
                        )) is Some implies link_of(s[i]) != #[trigger] link_of(s[j]) by {
                        if i < o.len() && j < o.len() {
                            assert(s[i] == o[i]);
                            assert(s[j] == o[j]);
                        }
                    }
                }
                key
            },
            Some(key) => {
                let idx = key.index();
                let ghost o = old(self).inner@;
                let ghost h = key;
                let mut entry = Entry::Occupied { value, gen: key.gen() };
                std::mem::swap(&mut self.inner[idx], &mut entry);
                let next = match entry {
                    Entry::Vacant(next) => next,
                    Entry::Occupied { .. } => {
                        proof {
                            assert(false);
                        }
                        None
                    },
                };
                self.next_key = next;
                proof {
                    let s = self.inner@;
                    assert(s == o.update(idx as int, Entry::Occupied { value, gen: gen_of(h@) }));
                    assert(link_of(o[idx as int]) != Some(idx as int));
                    assert forall|i: int| 0 <= i < s.len() && #[trigger] s[i] is Vacant implies link_ok(
                        s,
                        s[i]->Vacant_0,
                    ) by {
                        assert(s[i] == o[i]);
                        assert(o[i] is Vacant);
                        if o[i]->Vacant_0 is Some {
                            assert(link_of(o[i]) != Some(slot_of(h)));
                        }
                    }
                    assert forall|i: int| 0 <= i < s.len() implies #[trigger] link_of(s[i]) != Some(i) by {
                        if i != idx {
                            assert(s[i] == o[i]);
                        }
                    }
                    assert forall|i: int, j: int|
                        0 <= i < s.len() && 0 <= j < s.len() && i != j && (#[trigger] link_of(
                            s[i],
                        )) is Some implies link_of(s[i]) != #[trigger] link_of(s[j]) by {
                        assert(i != idx);
                        assert(s[i] == o[i]);
                        if j != idx {
                            assert(s[j] == o[j]);
                        }
                    }
                    assert forall|i: int|
                        0 <= i < s.len() && self.next_key is Some implies #[trigger] link_of(s[i])
                        != Some(slot_of(self.next_key->0)) by {
                        assert(link_of(o[idx as int]) == Some(slot_of(self.next_key->0)));
                        if i != idx {
                            assert(s[i] == o[i]);
                        }
                    }
                }
                key
            },
        }
    }

    /// Take the value that `key` reaches out of the storage. Its slot is freed and
    /// becomes the head of the free list, under the key with a bumped generation.
    /// A key whose index lies past the storage gives `None`.
    pub fn remove(&mut self, key: BaseKey) -> (r: Option<T>)
        requires
            old(self).wf(),
            slot_of(key) < old(self).slots().len() ==> old(self).lookup(key) is Some,
        ensures
            final(self).wf(),
            removed(*old(self), *final(self), key, r),
    {
        let key = key;
        let idx = key.index();
        if idx >= self.inner.len() {
            return None;
        }
        let ghost o = old(self).inner@;
        let ghost k0 = key;
        let mut entry = Entry::Vacant(self.next_key.take());
        std::mem::swap(&mut self.inner[idx], &mut entry);
        let value = match entry {
            Entry::Occupied { value, gen } => value,
            Entry::Vacant(_) => {
                proof {
                    assert(false);
                }
                return None;
            },
        };
        let key = key.bump();
        self.next_key = Some(key);
        proof {
            lemma_key_fields(k0@, 0);
            let s = self.inner@;
            let head = old(self).next_key;
            assert(s == o.update(idx as int, Entry::Vacant(head)));
            assert forall|i: int| 0 <= i < s.len() && #[trigger] s[i] is Vacant implies link_ok(
                s,
                s[i]->Vacant_0,
            ) by {
                if i != idx {
                    assert(s[i] == o[i]);
                    assert(o[i] is Vacant);
                }
            }
            assert forall|i: int| 0 <= i < s.len() implies #[trigger] link_of(s[i]) != Some(i) by {
                if i != idx {
                    assert(s[i] == o[i]);
                }
            }
            assert forall|i: int, j: int|
                0 <= i < s.len() && 0 <= j < s.len() && i != j && (#[trigger] link_of(s[i])) is Some
                    implies link_of(s[i]) != #[trigger] link_of(s[j]) by {
                if i != idx {
                    assert(s[i] == o[i]);
                }
                if j != idx {
                    assert(s[j] == o[j]);
                }
            }
            assert forall|i: int|
                0 <= i < s.len() && self.next_key is Some implies #[trigger] link_of(s[i]) != Some(
                slot_of(self.next_key->0),
            ) by {
                if i != idx {
                    assert(s[i] == o[i]);
                    if link_of(o[i]) is Some {
                        assert(o[link_of(o[i])->0] is Vacant);
                    }
                }
            }
        }
        Some(value)
    }

    /// The value that `key` reaches, if any.
    pub fn get(&self, key: BaseKey) -> (r: Option<&T>)
        ensures
            match r {
                Some(v) => self.lookup(key) == Some(*v),
                None => self.lookup(key) is None,
            },
    {
        let idx = key.index();
        if idx >= self.inner.len() {
            return None;
        }
        match &self.inner[idx] {
            Entry::Occupied { value, gen } => {
                if *gen == key.gen() {
                    Some(value)
                } else {
                    None
                }
            },
            Entry::Vacant(_) => None,
        }
    }

    /// The number of slots that hold a value.
    pub fn count(&self) -> (r: usize)
        ensures
            r == occupied_count(self.slots()),
    {
        let mut n: usize = 0;
        let mut i: usize = 0;
        while i < self.inner.len()
            invariant
                i <= self.inner@.len(),
                n == occupied_count(self.inner@.take(i as int)),
                n <= i,
            decreases self.inner@.len() - i,
        {
            proof {
                assert(self.inner@.take(i as int + 1).drop_last() == self.inner@.take(i as int));
            }
            if self.inner[i].is_occupied() {
                n = n + 1;
            }
            i = i + 1;
        }
        proof {
            assert(self.inner@.take(i as int) == self.inner@);
        }
        n
    }
}

} // verus!

verus! {

/// Replacing one slot changes the number of occupied slots by what the
/// old and new entries hold.
pub proof fn lemma_occupied_count_update<T>(s: Seq<Entry<T>>, i: int, e: Entry<T>)
    requires
        0 <= i < s.len(),
    ensures
        occupied_count(s.update(i, e)) + (if s[i] is Occupied { 1int } else { 0int })
            == occupied_count(s) + (if e is Occupied { 1int } else { 0int }),
    decreases s.len(),
{
    let u = s.update(i, e);
    if i == s.len() - 1 {
        assert(u.drop_last() == s.drop_last());
    } else {
        lemma_occupied_count_update(s.drop_last(), i, e);
        assert(u.drop_last() == s.drop_last().update(i, e));
    }
}

/// A read gives back what a write stored (for a new slot, while the index fits
/// in 48 bits); values that other keys reached stay in place; the count grows by one.
pub proof fn law_insert_then_get<T>(before: Slab<T>, after: Slab<T>, value: T, key: BaseKey, other: BaseKey)
    requires
        before.wf(),
        inserted(before, after, value, key),
        before.free_head() is None ==> before.slots().len() < 0x1_0000_0000_0000,
    ensures
        after.lookup(key) == Some(value),
        before.lookup(other) is Some ==> after.lookup(other) == before.lookup(other),
        occupied_count(after.slots()) == occupied_count(before.slots()) + 1,
{
    match before.free_head() {
        None => {
            lemma_key_fields(before.slots().len() as u64, 0);
            assert(after.slots().drop_last() == before.slots());
        },
        Some(h) => {
            lemma_occupied_count_update(
                before.slots(),
                slot_of(h),
                Entry::Occupied { value, gen: gen_of(h@) },
            );
        },
    }
}

/// Removing under one key leaves every key of another slot reaching what it
/// reached before.
pub proof fn law_remove_keeps_others<T>(before: Slab<T>, after: Slab<T>, key: BaseKey, r: Option<T>, other: BaseKey)
    requires
        removed(before, after, key, r),
        slot_of(other) != slot_of(key),
    ensures
        after.lookup(other) == before.lookup(other),
{
}

/// After `remove`, the key no longer reaches anything and the count drops by one.
/// The next `insert` reuses the slot under the bumped key, which differs from the
/// removed one unless its generation was at its top value.
pub proof fn law_remove_then_reuse<T>(
    s0: Slab<T>,
    s1: Slab<T>,
    s2: Slab<T>,
    key: BaseKey,
    r: Option<T>,
    value: T,
    key2: BaseKey,
)
    requires
        s0.wf(),
        s0.lookup(key) is Some,
        removed(s0, s1, key, r),
        inserted(s1, s2, value, key2),
    ensures
        r == s0.lookup(key),
        s1.lookup(key) is None,
        occupied_count(s1.slots()) + 1 == occupied_count(s0.slots()),
        key2@ == bumped(key@),
        slot_of(key2) == slot_of(key),
        s2.lookup(key2) == Some(value),
        gen_of(key@) != 0xFFFF ==> s2.lookup(key) is None,
{
    lemma_occupied_count_update(s0.slots(), slot_of(key), Entry::Vacant(s0.free_head()));
    lemma_key_fields(key@, 0);
    lemma_bump_gen(key@);
}

} // verus!
