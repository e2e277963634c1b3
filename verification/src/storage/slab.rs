use vstd::prelude::*;

verus! {

/// A slot of a `Slab<T>`: a value, or a free slot linking to the next free slot.
#[derive(Debug)]
pub enum Entry<T> {
    Occupied(T),
    Vacant(Option<u64>),
}

impl<T> Entry<T> {
    /// Whether the slot holds a value.
    pub fn is_occupied(&self) -> (r: bool)
        ensures
            r == (self is Occupied),
    {
        match self {
            Entry::Occupied(_) => true,
            Entry::Vacant(_) => false,
        }
    }
}

/// The slot that a key reaches.
pub open spec fn slot(key: u64) -> int {
    (key as usize) as int
}

/// The slot a free slot links to, if it is a free slot with a link.
pub open spec fn link_of<T>(e: Entry<T>) -> Option<int> {
    match e {
        Entry::Vacant(Some(k)) => Some(slot(k)),
        _ => None,
    }
}

/// A link of the free list is absent, or names a free slot inside the slab.
pub open spec fn link_ok<T>(slots: Seq<Entry<T>>, link: Option<u64>) -> bool {
    match link {
        None => true,
        Some(k) => k < slots.len() && slots[k as int] is Vacant,
    }
}

/// The number of slots that hold a value.
pub open spec fn occupied_count<T>(slots: Seq<Entry<T>>) -> nat
    decreases slots.len(),
{
    if slots.len() == 0 {
        0
    } else {
        occupied_count(slots.drop_last()) + if slots.last() is Occupied { 1nat } else { 0nat }
    }
}

/// The well-formedness of a free list over `slots` starting at `head`:
/// every link names a free slot, no slot links to itself, no two links
/// name the same slot, and no link names the head.
pub open spec fn free_list_wf<T>(slots: Seq<Entry<T>>, head: Option<u64>) -> bool {
    &&& link_ok(slots, head)
    &&& forall|i: int|
        0 <= i < slots.len() && #[trigger] slots[i] is Vacant ==> link_ok(slots, slots[i]->Vacant_0)
    &&& forall|i: int| 0 <= i < slots.len() ==> #[trigger] link_of(slots[i]) != Some(i)
    &&& forall|i: int, j: int|
        0 <= i < slots.len() && 0 <= j < slots.len() && i != j && (#[trigger] link_of(slots[i]))
            is Some ==> link_of(slots[i]) != #[trigger] link_of(slots[j])
    &&& forall|i: int|
        0 <= i < slots.len() && head is Some ==> #[trigger] link_of(slots[i]) != Some(
            head->0 as int,
        )
}

/// A slab of values reached by plain `u64` keys; freed slots are reused
/// most recently freed first.
#[derive(Debug)]
pub struct Slab<T> {
    inner: Vec<Entry<T>>,
    next_key: Option<u64>,
}

/// `after` is `before` with `value` stored under `key`: the head of the free list
/// is reused when there is one, otherwise a slot is appended.
pub open spec fn inserted<T>(before: Slab<T>, after: Slab<T>, value: T, key: u64) -> bool {
    match before.free_head() {
        None => {
            &&& key == before.slots().len()
            &&& after.slots() == before.slots().push(Entry::Occupied(value))
            &&& after.free_head() is None
        },
        Some(h) => {
            &&& key == h
            &&& after.slots() == before.slots().update(h as int, Entry::Occupied(value))
            &&& after.free_head() == before.slots()[h as int]->Vacant_0
        },
    }
}

/// `after` is `before` with slot `index` freed and its value handed out as `r`;
/// the freed slot becomes the head of the free list. An index past the end
/// changes nothing and gives `None`.
pub open spec fn removed<T>(before: Slab<T>, after: Slab<T>, index: u64, r: Option<T>) -> bool {
    if index >= before.slots().len() {
        &&& r is None
        &&& after.slots() == before.slots()
        &&& after.free_head() == before.free_head()
    } else {
        &&& r == before.lookup(index)
        &&& after.slots() == before.slots().update(index as int, Entry::Vacant(before.free_head()))
        &&& after.free_head() == Some(index)
    }
}

impl<T> Slab<T> {
    /// The slots of the slab.
    pub closed spec fn slots(&self) -> Seq<Entry<T>> {
        self.inner@
    }

    /// The first free slot, which the next `insert` reuses.
    pub closed spec fn free_head(&self) -> Option<u64> {
        self.next_key
    }

    /// The slab's free list is well formed.
    pub open spec fn wf(&self) -> bool {
        &&& free_list_wf(self.slots(), self.free_head())
        &&& self.slots().len() <= usize::MAX
    }

    /// The value stored at `index`.
    pub open spec fn lookup(&self, index: u64) -> Option<T> {
        let i = slot(index);
        if i < self.slots().len() {
            match self.slots()[i] {
                Entry::Occupied(value) => Some(value),
                Entry::Vacant(_) => None,
            }
        } else {
            None
        }
    }

    /// The value `remove` takes out at `index`: the stored value when the index
    /// lies inside the slab.
    pub open spec fn pending(&self, index: u64) -> Option<T> {
        if index < self.slots().len() {
            self.lookup(index)
        } else {
            None
        }
    }

    /// An empty slab.
    pub fn new() -> (r: Self)
        ensures
            r.wf(),
            r.slots() == Seq::<Entry<T>>::empty(),
            r.free_head() is None,
    {
        Slab { inner: Vec::new(), next_key: None }
    }

    /// The number of slots, free or not.
    pub fn slot_count(&self) -> (r: u64)
        ensures
            r == self.slots().len(),
    {
        self.inner.len() as u64
    }

    /// The first free slot.
    pub fn next_key(&self) -> (r: Option<u64>)
        ensures
            r == self.free_head(),
    {
        self.next_key
    }

    /// Store a value and return its key.
    pub fn insert(&mut self, value: T) -> (key: u64)
        requires
            old(self).wf(),
        ensures
            final(self).wf(),
            inserted(*old(self), *final(self), value, key),
    {
        match self.next_key.take() {
            None => {
                let key = self.inner.len();
                self.inner.push(Entry::Occupied(value));
                proof {
                    let s = self.inner@;
                    let o = old(self).inner@;
                    assert(self.inner.len() == s.len());
                    assert forall|i: int| 0 <= i < s.len() && #[trigger] s[i] is Vacant implies link_ok(
                        s,
                        s[i]->Vacant_0,
                    ) by {
                        assert(s[i] == o[i]);
                    }
                    assert forall|i: int| 0 <= i < s.len() implies #[trigger] link_of(s[i]) != Some(
                        i,
                    ) by {
                        if i < o.len() {
                            assert(s[i] == o[i]);
                        }
                    }
                    assert forall|i: int, j: int|
                        0 <= i < s.len() && 0 <= j < s.len() && i != j && (#[trigger] link_of(
                            s[i],
                        )) is Some implies link_of(s[i]) != #[trigger] link_of(s[j]) by {
                        if i < o.len() && j < o.len() {
                            assert(s[i] == o[i]);
                            assert(s[j] == o[j]);
                        }
                    }
                }
                key as u64
            },
            Some(key) => {
                let idx = key as usize;
                let ghost o = old(self).inner@;
                let mut entry = Entry::Occupied(value);
                std::mem::swap(&mut self.inner[idx], &mut entry);
                let next = match entry {
                    Entry::Vacant(next) => next,
                    Entry::Occupied(_) => {
                        proof {
                            assert(false);
                        }
                        None
                    },
                };
                self.next_key = next;
                proof {
                    let s = self.inner@;
                    assert(s == o.update(idx as int, Entry::Occupied(value)));
                    assert(link_of(o[idx as int]) != Some(idx as int));
                    assert forall|i: int| 0 <= i < s.len() && #[trigger] s[i] is Vacant implies link_ok(
                        s,
                        s[i]->Vacant_0,
                    ) by {
                        assert(s[i] == o[i]);
                        assert(o[i] is Vacant);
                        if o[i]->Vacant_0 is Some {
                            assert(link_of(o[i]) != Some(key as int));
                        }
                    }
                    assert forall|i: int| 0 <= i < s.len() implies #[trigger] link_of(s[i]) != Some(
                        i,
                    ) by {
                        if i != idx {
                            assert(s[i] == o[i]);
                        }
                    }
                    assert forall|i: int, j: int|
                        0 <= i < s.len() && 0 <= j < s.len() && i != j && (#[trigger] link_of(
                            s[i],
                        )) is Some implies link_of(s[i]) != #[trigger] link_of(s[j]) by {
                        assert(i != idx);
                        assert(s[i] == o[i]);
                        if j != idx {
                            assert(s[j] == o[j]);
                        }
                    }
                    assert forall|i: int|
                        0 <= i < s.len() && self.next_key is Some implies #[trigger] link_of(s[i])
                        != Some(self.next_key->0 as int) by {
                        assert(link_of(o[idx as int]) == Some(self.next_key->0 as int));
                        if i != idx {
                            assert(s[i] == o[i]);
                        }
                    }
                }
                key
            },
        }
    }

    /// Take the value at `index` out of the slab; its slot becomes the head of
    /// the free list. An index past the end gives `None`.
    pub fn remove(&mut self, index: u64) -> (r: Option<T>)
        requires
            old(self).wf(),
            index < old(self).slots().len() ==> old(self).lookup(index) is Some,
        ensures
            final(self).wf(),
            removed(*old(self), *final(self), index, r),
    {
        if self.inner.len() as u64 <= index {
            return None;
        }
        let idx = index as usize;
        let ghost o = old(self).inner@;
        let mut entry = Entry::Vacant(self.next_key.take());
        std::mem::swap(&mut self.inner[idx], &mut entry);
        self.next_key = Some(index);
        let value = match entry {
            Entry::Occupied(value) => value,
            Entry::Vacant(_) => {
                proof {
                    assert(false);
                }
                return None;
            },
        };
        proof {
            let s = self.inner@;
            let head = old(self).next_key;
            assert(s == o.update(idx as int, Entry::Vacant(head)));
            assert forall|i: int| 0 <= i < s.len() && #[trigger] s[i] is Vacant implies link_ok(
                s,
                s[i]->Vacant_0,
            ) by {
                if i != idx {
                    assert(s[i] == o[i]);
                    assert(o[i] is Vacant);
                }
            }
            assert forall|i: int| 0 <= i < s.len() implies #[trigger] link_of(s[i]) != Some(i) by {
                if i != idx {
                    assert(s[i] == o[i]);
                }
            }
            assert forall|i: int, j: int|
                0 <= i < s.len() && 0 <= j < s.len() && i != j && (#[trigger] link_of(s[i])) is Some
                    implies link_of(s[i]) != #[trigger] link_of(s[j]) by {
                if i != idx {
                    assert(s[i] == o[i]);
                }
                if j != idx {
                    assert(s[j] == o[j]);
                }
            }
            assert forall|i: int|
                0 <= i < s.len() && self.next_key is Some implies #[trigger] link_of(s[i]) != Some(
                self.next_key->0 as int,
            ) by {
                if i != idx {
                    assert(s[i] == o[i]);
                    if link_of(o[i]) is Some {
                        assert(o[link_of(o[i])->0] is Vacant);
                    }
                }
            }
        }
        Some(value)
    }

    /// The value stored at `index`, if any.
    pub fn get(&self, index: u64) -> (r: Option<&T>)
        ensures
            match r {
                Some(v) => self.lookup(index) == Some(*v),
                None => self.lookup(index) is None,
            },
    {
        let idx = index as usize;
        if idx >= self.inner.len() {
            return None;
        }
        match &self.inner[idx] {
            Entry::Occupied(value) => Some(value),
            Entry::Vacant(_) => None,
        }
    }

    /// The number of slots that hold a value.
    pub fn count(&self) -> (r: u64)
        ensures
            r == occupied_count(self.slots()),
    {
        let mut n: u64 = 0;
        let mut i: usize = 0;
        while i < self.inner.len()
            invariant
                i <= self.inner@.len(),
                n == occupied_count(self.inner@.take(i as int)),
                n <= i,
            decreases self.inner@.len() - i,
        {
            proof {
                assert(self.inner@.take(i as int + 1).drop_last() == self.inner@.take(i as int));
            }
            if self.inner[i].is_occupied() {
                n = n + 1;
            }
            i = i + 1;
        }
        proof {
            assert(self.inner@.take(i as int) == self.inner@);
        }
        n
    }
}

/// Replacing one slot changes the number of occupied slots by what the
/// old and new entries hold.
pub proof fn lemma_occupied_count_update<T>(s: Seq<Entry<T>>, i: int, e: Entry<T>)
    requires
        0 <= i < s.len(),
    ensures
        occupied_count(s.update(i, e)) + (if s[i] is Occupied { 1int } else { 0int })
            == occupied_count(s) + (if e is Occupied { 1int } else { 0int }),
    decreases s.len(),
{
    let u = s.update(i, e);
    if i == s.len() - 1 {
        assert(u.drop_last() == s.drop_last());
    } else {
        lemma_occupied_count_update(s.drop_last(), i, e);
        assert(u.drop_last() == s.drop_last().update(i, e));
    }
}

/// A read gives back what a write stored, and other stored values stay in place.
pub proof fn law_insert_then_get<T>(before: Slab<T>, after: Slab<T>, value: T, key: u64, other: u64)
    requires
        before.wf(),
        inserted(before, after, value, key),
    ensures
        after.lookup(key) == Some(value),
        other != key && other <= usize::MAX ==> after.lookup(other) == before.lookup(other),
        occupied_count(after.slots()) == occupied_count(before.slots()) + 1,
{
    match before.free_head() {
        None => {
            assert(after.slots().drop_last() == before.slots());
        },
        Some(h) => {
            lemma_occupied_count_update(before.slots(), h as int, Entry::Occupied(value));
        },
    }
}

/// Removing one index leaves every other index holding what it held.
pub proof fn law_remove_keeps_others<T>(before: Slab<T>, after: Slab<T>, index: u64, r: Option<T>, other: u64)
    requires
        removed(before, after, index, r),
        other != index,
        other <= usize::MAX,
        index <= usize::MAX,
    ensures
        after.lookup(other) == before.lookup(other),
{
}

/// `remove` gives back the stored value, the index then reaches nothing, and
/// the next `insert` reuses that index.
pub proof fn law_remove_then_reuse<T>(
    s0: Slab<T>,
    s1: Slab<T>,
    s2: Slab<T>,
    index: u64,
    r: Option<T>,
    value: T,
    key: u64,
)
    requires
        s0.wf(),
        index <= usize::MAX,
        s0.lookup(index) is Some,
        removed(s0, s1, index, r),
        inserted(s1, s2, value, key),
    ensures
        r == s0.lookup(index),
        s1.lookup(index) is None,
        occupied_count(s1.slots()) + 1 == occupied_count(s0.slots()),
        key == index,
{
    lemma_occupied_count_update(s0.slots(), index as int, Entry::Vacant(s0.free_head()));
}

} // verus!
