use vstd::prelude::*;

use crate::serializer::{decoded_u64, encoded_u64, Serializer};

verus! {

/// Width of the index part of a key, in bits.
pub const INDEX: u64 = 48;
/// Width of the generation part of a key, in bits.
pub const GEN: u64 = 14;
/// Width of the kind part of a key, in bits.
pub const KIND: u64 = 2;
/// Selects the index bits of a key.
pub const INDEX_MASK: u64 = 0x0000FFFFFFFFFFFF;
/// Mask applied to a key before a new generation is written into it.
pub const GEN_MASK: u64 = 0xCFFFFFFFFFFFFFFF;
/// Clears the kind bits of a key.
pub const KIND_MASK: u64 = 0x3FFFFFFFFFFFFFFF;

/// What a key refers to.
#[derive(Debug, Copy, Clone, PartialEq, Eq, Structural, Hash)]
pub enum KeyKind {
    Agent,
    Writer,
    Session,
}

impl KeyKind {
    /// The number stored in the two top bits of a key for this kind.
    pub open spec fn spec_code(self) -> u64 {
        match self {
            KeyKind::Agent => 1,
            KeyKind::Writer => 2,
            KeyKind::Session => 3,
        }
    }

    /// The number stored in the two top bits of a key for this kind.
    #[verifier::when_used_as_spec(spec_code)]
    pub fn code(self) -> (r: u64)
        ensures
            r == self.spec_code(),
    {
        match self {
            KeyKind::Agent => 1,
            KeyKind::Writer => 2,
            KeyKind::Session => 3,
        }
    }
}

/// The index part of a raw key.
pub open spec fn index_of(raw: u64) -> u64 {
    raw & INDEX_MASK
}

/// The generation part of a raw key (its bits 48 to 61).
pub open spec fn gen_of(raw: u64) -> u16 {
    ((raw << KIND) >> (KIND + INDEX)) as u16
}

/// The kind part of a raw key (its two top bits).
pub open spec fn kind_code_of(raw: u64) -> u64 {
    raw >> (INDEX + GEN)
}

/// A raw key built from an index and a kind.
pub open spec fn new_raw(index: u64, kind: KeyKind) -> u64 {
    index | (kind.spec_code() << (INDEX + GEN))
}

/// A raw key with a new generation written into it.
pub open spec fn with_gen(raw: u64, gen: u16) -> u64 {
    (raw & GEN_MASK) | ((gen as u64) << INDEX)
}

/// A raw key with a new kind written into it.
pub open spec fn with_kind(raw: u64, kind: KeyKind) -> u64 {
    (raw & KIND_MASK) | (kind.spec_code() << (INDEX + GEN))
}

/// A raw key with its generation bumped by one (wrapping).
pub open spec fn bumped(raw: u64) -> u64 {
    with_gen(raw, (gen_of(raw) + 1) as u16)
}

/// A key for accessing a value in `Agents<T>`.
/// The key is a single `u64`: the low 48 bits hold the index,
/// the next 14 bits the generation and the two top bits the kind.
#[derive(Debug, Copy, Clone, PartialEq, Eq, Structural, Hash)]
pub struct Key(u64);

impl View for Key {
    type V = u64;

    closed spec fn view(&self) -> u64 {
        self.0
    }
}

impl Key {
    /// Create a key from an index and a kind.
    pub fn new(index: u64, kind: KeyKind) -> (r: Key)
        ensures
            r@ == new_raw(index, kind),
    {
        Key(index | (kind.code() << (INDEX + GEN)))
    }

    /// The key with a given raw representation.
    pub closed spec fn spec_from_raw(raw: u64) -> Key {
        Key(raw)
    }

    /// Create a key from its raw representation.
    pub fn from_raw(raw: u64) -> (r: Key)
        ensures
            r@ == raw,
            r == Key::spec_from_raw(raw),
    {
        Key(raw)
    }

    /// The kind of the key.
    pub fn kind(&self) -> (r: KeyKind)
        requires
            kind_code_of(self@) != 0,
        ensures
            r.spec_code() == kind_code_of(self@),
    {
        let raw: u64 = self.0;
        let code: u64 = raw >> (INDEX + GEN);
        assert(code <= 3) by (bit_vector)
            requires
                code == raw >> 62u64,
        ;
        if code == 1 {
            KeyKind::Agent
        } else if code == 2 {
            KeyKind::Writer
        } else {
            KeyKind::Session
        }
    }

    /// Increment the generation of the key (wrapping).
    pub fn bump(&mut self)
        ensures
            final(self)@ == bumped(old(self)@),
    {
        let old_gen = self.gen();
        let gen = old_gen.wrapping_add(1);
        assert(gen == (old_gen + 1) as u16) by (bit_vector)
            requires
                gen == if old_gen == 0xffffu16 { 0u16 } else { (old_gen + 1) as u16 },
        ;
        self.set_gen(gen);
    }

    /// Merge an index into the key.
    pub fn set_index(&mut self, new_index: u64)
        ensures
            final(self)@ == old(self)@ | new_index,
    {
        self.0 = self.0 | new_index;
    }

    /// Write a generation into the key.
    pub fn set_gen(&mut self, new_gen: u16)
        ensures
            final(self)@ == with_gen(old(self)@, new_gen),
    {
        self.0 = self.0 & GEN_MASK;
        self.0 = self.0 | ((new_gen as u64) << INDEX);
    }

    /// Write a kind into the key.
    pub fn set_kind(&mut self, kind: KeyKind)
        ensures
            final(self)@ == with_kind(old(self)@, kind),
    {
        self.0 = self.0 & KIND_MASK;
        self.0 = self.0 | (kind.code() << (INDEX + GEN));
    }

    /// The index of the key.
    pub fn index(&self) -> (r: usize)
        ensures
            r == index_of(self@) as usize,
    {
        (self.0 & INDEX_MASK) as usize
    }

    /// The raw representation of the key.
    pub fn raw(&self) -> (r: u64)
        ensures
            r == self@,
    {
        self.0
    }

    /// The generation of the key.
    pub fn gen(&self) -> (r: u16)
        ensures
            r == gen_of(self@),
    {
        ((self.0 << KIND) >> (KIND + INDEX)) as u16
    }
}

} // verus!

verus! {

/// Writing a generation or a kind into a key leaves its index alone,
/// and writing a kind leaves its generation alone.
pub proof fn lemma_key_fields_independent(raw: u64, g: u16, kind: KeyKind)
    ensures
        index_of(with_gen(raw, g)) == index_of(raw),
        index_of(with_kind(raw, kind)) == index_of(raw),
        gen_of(with_kind(raw, kind)) == gen_of(raw),
        kind_code_of(with_kind(raw, kind)) == kind.spec_code(),
        index_of(bumped(raw)) == index_of(raw),
{
    let c = kind.spec_code();
    let wk = with_kind(raw, kind);
    assert(1 <= c <= 3);
    assert(index_of(with_gen(raw, g)) == index_of(raw)) by (bit_vector);
    assert(wk & 0x0000FFFFFFFFFFFFu64 == raw & 0x0000FFFFFFFFFFFFu64
        && ((wk << 2u64) >> 50u64) as u16 == ((raw << 2u64) >> 50u64) as u16
        && wk >> 62u64 == c) by (bit_vector)
        requires
            wk == (raw & 0x3FFFFFFFFFFFFFFFu64) | (c << 62u64),
            1 <= c <= 3,
    ;
    let ng = (gen_of(raw) + 1) as u16;
    assert(index_of(with_gen(raw, ng)) == index_of(raw)) by (bit_vector);
}

/// A key built from an index below 2^48 holds that index, generation 0 and the kind.
pub proof fn lemma_new_key_fields(index: u64, kind: KeyKind)
    requires
        index < 0x1_0000_0000_0000,
    ensures
        index_of(new_raw(index, kind)) == index,
        gen_of(new_raw(index, kind)) == 0,
        kind_code_of(new_raw(index, kind)) == kind.spec_code(),
{
    let c = kind.spec_code();
    let r = new_raw(index, kind);
    assert(1 <= c <= 3);
    assert(r & 0x0000FFFFFFFFFFFFu64 == index && ((r << 2u64) >> 50u64) as u16 == 0u16
        && r >> 62u64 == c) by (bit_vector)
        requires
            r == index | (c << 62u64),
            index < 0x1_0000_0000_0000u64,
            1 <= c <= 3,
    ;
}

/// Bumping a key always changes its generation. It increments an even
/// generation by one, and keeps the kind unless the generation is at its top value.
pub proof fn lemma_bump_changes_gen(raw: u64)
    ensures
        gen_of(bumped(raw)) != gen_of(raw),
        gen_of(raw) % 2 == 0 ==> gen_of(bumped(raw)) == gen_of(raw) + 1,
        gen_of(raw) < 0x3FFF ==> kind_code_of(bumped(raw)) == kind_code_of(raw),
{
    let g = gen_of(raw);
    let ng = (g + 1) as u16;
    assert(g < 0x4000) by (bit_vector)
        requires
            g == ((raw << 2u64) >> 50u64) as u16,
    ;
    assert(gen_of(with_gen(raw, ng)) != g) by (bit_vector)
        requires
            g == ((raw << 2u64) >> 50u64) as u16,
            ng == (g + 1) as u16,
    ;
    assert(g % 2 == 0 ==> gen_of(with_gen(raw, ng)) == g + 1) by (bit_vector)
        requires
            g == ((raw << 2u64) >> 50u64) as u16,
            ng == (g + 1) as u16,
    ;
    assert(g < 0x3FFF ==> kind_code_of(with_gen(raw, ng)) == kind_code_of(raw)) by (bit_vector)
        requires
            g == ((raw << 2u64) >> 50u64) as u16,
            ng == (g + 1) as u16,
    ;
}

/// Writing generation `g` below 2^14 into a key whose generation is 0 gives generation `g`.
pub proof fn law_set_gen_from_zero(raw: u64, g: u16)
    requires
        gen_of(raw) == 0,
        g < 0x4000,
    ensures
        gen_of(with_gen(raw, g)) == g,
        index_of(with_gen(raw, g)) == index_of(raw),
        kind_code_of(with_gen(raw, g)) == kind_code_of(raw),
{
    assert(gen_of(with_gen(raw, g)) == g && index_of(with_gen(raw, g)) == index_of(raw)
        && kind_code_of(with_gen(raw, g)) == kind_code_of(raw)) by (bit_vector)
        requires
            ((raw << 2u64) >> 50u64) as u16 == 0u16,
            g < 0x4000u16,
    ;
}

} // verus!

verus! {

/// The slot that a key reaches: its index, as a `usize`.
pub open spec fn slot_of(key: Key) -> int {
    (index_of(key@) as usize) as int
}

/// A slot of `Agents<T>`: either a value with the generation of the key
/// that reaches it, or a free slot linking to the next free slot.
#[derive(Debug)]
pub enum Entry<T> {
    Occupied { value: T, gen: u16 },
    Vacant(Option<Key>),
}

impl<T> Entry<T> {
    /// Whether the slot holds a value.
    pub fn is_occupied(&self) -> (r: bool)
        ensures
            r == (self is Occupied),
    {
        match self {
            Entry::Occupied { .. } => true,
            Entry::Vacant(_) => false,
        }
    }
}

/// The index a free slot links to, if it is a free slot with a link.
pub open spec fn link_of<T>(e: Entry<T>) -> Option<int> {
    match e {
        Entry::Vacant(Some(k)) => Some(slot_of(k)),
        _ => None,
    }
}

/// A link of the free list is absent, or names a free slot inside the storage.
pub open spec fn link_ok<T>(slots: Seq<Entry<T>>, link: Option<Key>) -> bool {
    match link {
        None => true,
        Some(k) => slot_of(k) < slots.len() && slots[slot_of(k)] is Vacant,
    }
}

/// The number of slots that hold a value.
pub open spec fn occupied_count<T>(slots: Seq<Entry<T>>) -> nat
    decreases slots.len(),
{
    if slots.len() == 0 {
        0
    } else {
        occupied_count(slots.drop_last()) + if slots.last() is Occupied { 1nat } else { 0nat }
    }
}

/// The well-formedness of a free list over `slots` starting at `head`:
/// every link names a free slot, no slot links to itself, no two links
/// name the same slot, and no link names the head.
pub open spec fn free_list_wf<T>(slots: Seq<Entry<T>>, head: Option<Key>) -> bool {
    &&& link_ok(slots, head)
    &&& forall|i: int|
        0 <= i < slots.len() && #[trigger] slots[i] is Vacant ==> link_ok(slots, slots[i]->Vacant_0)
    &&& forall|i: int| 0 <= i < slots.len() ==> #[trigger] link_of(slots[i]) != Some(i)
    &&& forall|i: int, j: int|
        0 <= i < slots.len() && 0 <= j < slots.len() && i != j && (#[trigger] link_of(slots[i]))
            is Some ==> link_of(slots[i]) != #[trigger] link_of(slots[j])
    &&& forall|i: int|
        0 <= i < slots.len() && head is Some ==> #[trigger] link_of(slots[i]) != Some(
            slot_of(head->0),
        )
}

/// Generational storage: a value is reached by the key that `insert` returned,
/// until `remove` frees its slot and bumps the generation that the slot expects.
#[derive(Debug)]
pub struct Agents<T> {
    inner: Vec<Entry<T>>,
    next_key: Option<Key>,
}

/// `after` is `before` with `value` stored under `key`: a free slot is reused
/// (its key takes the new kind), otherwise a slot holding generation
/// of the new key is appended.
pub open spec fn inserted<T>(before: Agents<T>, after: Agents<T>, value: T, kind: KeyKind, key: Key) -> bool {
    match before.free_head() {
        None => {
            &&& key@ == new_raw(before.slots().len() as u64, kind)
            &&& after.slots() == before.slots().push(Entry::Occupied { value, gen: gen_of(key@) })
            &&& after.free_head() is None
        },
        Some(h) => {
            &&& key@ == with_kind(h@, kind)
            &&& after.slots() == before.slots().update(
                slot_of(h),
                Entry::Occupied { value, gen: gen_of(h@) },
            )
            &&& after.free_head() == before.slots()[slot_of(h)]->Vacant_0
        },
    }
}

/// `after` is `before` with the slot of `key` freed, its value handed out as `r`:
/// the freed slot becomes the head of the free list under the key with a bumped
/// generation. A key past the end of the storage changes nothing and gives `None`.
pub open spec fn removed<T>(before: Agents<T>, after: Agents<T>, key: Key, r: Option<T>) -> bool {
    if slot_of(key) >= before.slots().len() {
        &&& r is None
        &&& after.slots() == before.slots()
        &&& after.free_head() == before.free_head()
    } else {
        &&& r == before.lookup(key)
        &&& after.slots() == before.slots().update(slot_of(key), Entry::Vacant(before.free_head()))
        &&& after.free_head() matches Some(k) && k@ == bumped(key@)
    }
}

impl<T> Agents<T> {
    /// The slots of the storage.
    pub closed spec fn slots(&self) -> Seq<Entry<T>> {
        self.inner@
    }

    /// The key of the first free slot, which the next `insert` reuses.
    pub closed spec fn free_head(&self) -> Option<Key> {
        self.next_key
    }

    /// The storage's free list is well formed.
    pub open spec fn wf(&self) -> bool {
        &&& free_list_wf(self.slots(), self.free_head())
        &&& self.slots().len() <= usize::MAX
    }

    /// The value that `key` reaches: the slot at its index holds a value
    /// stored under the key's generation.
    pub open spec fn lookup(&self, key: Key) -> Option<T> {
        let i = slot_of(key);
        if i < self.slots().len() {
            match self.slots()[i] {
                Entry::Occupied { value, gen } => if gen == gen_of(key@) {
                    Some(value)
                } else {
                    None
                },
                Entry::Vacant(_) => None,
            }
        } else {
            None
        }
    }

    /// An empty storage.
    pub fn new() -> (r: Self)
        ensures
            r.wf(),
            r.slots() == Seq::<Entry<T>>::empty(),
            r.free_head() is None,
    {
        Agents { inner: Vec::new(), next_key: None }
    }

    /// The number of slots, free or not.
    pub fn slot_count(&self) -> (r: usize)
        ensures
            r == self.slots().len(),
    {
        self.inner.len()
    }

    /// The key of the first free slot.
    pub fn next_key(&self) -> (r: Option<Key>)
        ensures
            r == self.free_head(),
    {
        self.next_key
    }

    /// Store a value and return the key that reaches it.
    /// A free slot is reused (its key takes the new kind), otherwise a slot is appended.
    pub fn insert(&mut self, value: T, kind: KeyKind) -> (key: Key)
        requires
            old(self).wf(),
        ensures
            final(self).wf(),
            inserted(*old(self), *final(self), value, kind, key),
    {
        match self.next_key.take() {
            None => {
                let key = Key::new(self.inner.len() as u64, kind);
                let gen = key.gen();
                self.inner.push(Entry::Occupied { value, gen });
                proof {
                    let s = self.inner@;
                    let o = old(self).inner@;
                    assert(self.inner.len() == s.len());
                    assert forall|i: int| 0 <= i < s.len() && #[trigger] s[i] is Vacant implies link_ok(
                        s,
                        s[i]->Vacant_0,
                    ) by {
                        assert(s[i] == o[i]);
                    }
                    assert forall|i: int| 0 <= i < s.len() implies #[trigger] link_of(s[i]) != Some(i) by {
                        if i < o.len() {
                            assert(s[i] == o[i]);
                        }
                    }
                    assert forall|i: int, j: int|
                        0 <= i < s.len() && 0 <= j < s.len() && i != j && (#[trigger] link_of(
                            s[i],
                        )) is Some implies link_of(s[i]) != #[trigger] link_of(s[j]) by {
                        if i < o.len() && j < o.len() {
                            assert(s[i] == o[i]);
                            assert(s[j] == o[j]);
                        }
                    }
                }
                key
            },
            Some(mut key) => {
                let idx = key.index();
                let ghost o = old(self).inner@;
                let ghost h = key;
                let mut entry = Entry::Occupied { value, gen: key.gen() };
                std::mem::swap(&mut self.inner[idx], &mut entry);
                let next = match entry {
                    Entry::Vacant(next) => next,
                    Entry::Occupied { .. } => {
                        proof {
                            assert(false);
                        }
                        None
                    },
                };
                self.next_key = next;
                proof {
                    let s = self.inner@;
                    assert(s == o.update(idx as int, Entry::Occupied { value, gen: gen_of(h@) }));
                    assert(link_of(o[idx as int]) != Some(idx as int));
                    assert forall|i: int| 0 <= i < s.len() && #[trigger] s[i] is Vacant implies link_ok(
                        s,
                        s[i]->Vacant_0,
                    ) by {
                        assert(s[i] == o[i]);
                        assert(o[i] is Vacant);
                        if o[i]->Vacant_0 is Some {
                            assert(link_of(o[i]) != Some(slot_of(h)));
                        }
                    }
                    assert forall|i: int| 0 <= i < s.len() implies #[trigger] link_of(s[i]) != Some(i) by {
                        if i != idx {
                            assert(s[i] == o[i]);
                        }
                    }
                    assert forall|i: int, j: int|
                        0 <= i < s.len() && 0 <= j < s.len() && i != j && (#[trigger] link_of(
                            s[i],
                        )) is Some implies link_of(s[i]) != #[trigger] link_of(s[j]) by {
                        assert(i != idx);
                        assert(s[i] == o[i]);
                        if j != idx {
                            assert(s[j] == o[j]);
                        }
                    }
                    assert forall|i: int|
                        0 <= i < s.len() && self.next_key is Some implies #[trigger] link_of(s[i])
                        != Some(slot_of(self.next_key->0)) by {
                        assert(link_of(o[idx as int]) == Some(slot_of(self.next_key->0)));
                        if i != idx {
                            assert(s[i] == o[i]);
                        }
                    }
                }
                key.set_kind(kind);
                proof {
                    lemma_key_fields_independent(h@, 0, kind);
                }
                key
            },
        }
    }

    /// Take the value that `key` reaches out of the storage. Its slot is freed and
    /// becomes the head of the free list, under the key with a bumped generation.
    /// A key whose index lies past the storage gives `None`.
    pub fn remove(&mut self, key: Key) -> (r: Option<T>)
        requires
            old(self).wf(),
            slot_of(key) < old(self).slots().len() ==> old(self).lookup(key) is Some,
        ensures
            final(self).wf(),
            removed(*old(self), *final(self), key, r),
    {
        let mut key = key;
        let idx = key.index();
        if idx >= self.inner.len() {
            return None;
        }
        let ghost o = old(self).inner@;
        let ghost k0 = key;
        let mut entry = Entry::Vacant(self.next_key.take());
        std::mem::swap(&mut self.inner[idx], &mut entry);
        let value = match entry {
            Entry::Occupied { value, gen } => value,
            Entry::Vacant(_) => {
                proof {
                    assert(false);
                }
                return None;
            },
        };
        key.bump();
        self.next_key = Some(key);
        proof {
            lemma_key_fields_independent(k0@, 0, KeyKind::Agent);
            let s = self.inner@;
            let head = old(self).next_key;
            assert(s == o.update(idx as int, Entry::Vacant(head)));
            assert forall|i: int| 0 <= i < s.len() && #[trigger] s[i] is Vacant implies link_ok(
                s,
                s[i]->Vacant_0,
            ) by {
                if i != idx {
                    assert(s[i] == o[i]);
                    assert(o[i] is Vacant);
                }
            }
            assert forall|i: int| 0 <= i < s.len() implies #[trigger] link_of(s[i]) != Some(i) by {
                if i != idx {
                    assert(s[i] == o[i]);
                }
            }
            assert forall|i: int, j: int|
                0 <= i < s.len() && 0 <= j < s.len() && i != j && (#[trigger] link_of(s[i])) is Some
                    implies link_of(s[i]) != #[trigger] link_of(s[j]) by {
                if i != idx {
                    assert(s[i] == o[i]);
                }
                if j != idx {
                    assert(s[j] == o[j]);
                }
            }
            assert forall|i: int|
                0 <= i < s.len() && self.next_key is Some implies #[trigger] link_of(s[i]) != Some(
                slot_of(self.next_key->0),
            ) by {
                if i != idx {
                    assert(s[i] == o[i]);
                    if link_of(o[i]) is Some {
                        assert(o[link_of(o[i])->0] is Vacant);
                    }
                }
            }
        }
        Some(value)
    }

    /// The value that `key` reaches, if any.
    pub fn get(&self, key: Key) -> (r: Option<&T>)
        ensures
            match r {
                Some(v) => self.lookup(key) == Some(*v),
                None => self.lookup(key) is None,
            },
    {
        let idx = key.index();
        if idx >= self.inner.len() {
            return None;
        }
        match &self.inner[idx] {
            Entry::Occupied { value, gen } => {
                if *gen == key.gen() {
                    Some(value)
                } else {
                    None
                }
            },
            Entry::Vacant(_) => None,
        }
    }

    /// The number of slots that hold a value.
    pub fn count(&self) -> (r: usize)
        ensures
            r == occupied_count(self.slots()),
    {
        let mut n: usize = 0;
        let mut i: usize = 0;
        while i < self.inner.len()
            invariant
                i <= self.inner@.len(),
                n == occupied_count(self.inner@.take(i as int)),
                n <= i,
            decreases self.inner@.len() - i,
        {
            proof {
                assert(self.inner@.take(i as int + 1).drop_last() == self.inner@.take(i as int));
            }
            if self.inner[i].is_occupied() {
                n = n + 1;
            }
            i = i + 1;
        }
        proof {
            assert(self.inner@.take(i as int) == self.inner@);
        }
        n
    }
}

} // verus!

verus! {

/// Replacing one slot changes the number of occupied slots by what the
/// old and new entries hold.
pub proof fn lemma_occupied_count_update<T>(s: Seq<Entry<T>>, i: int, e: Entry<T>)
    requires
        0 <= i < s.len(),
    ensures
        occupied_count(s.update(i, e)) + (if s[i] is Occupied { 1int } else { 0int })
            == occupied_count(s) + (if e is Occupied { 1int } else { 0int }),
    decreases s.len(),
{
    let u = s.update(i, e);
    if i == s.len() - 1 {
        assert(u.drop_last() == s.drop_last());
    } else {
        lemma_occupied_count_update(s.drop_last(), i, e);
        assert(u.drop_last() == s.drop_last().update(i, e));
    }
}

/// A read gives back what a write stored: after `insert` returned `key`, the key
/// reaches the stored value (for a new slot, while the index fits in 48 bits).
pub proof fn law_insert_then_get<T>(before: Agents<T>, after: Agents<T>, value: T, kind: KeyKind, key: Key)
    requires
        before.wf(),
        inserted(before, after, value, kind, key),
        before.free_head() is None ==> before.slots().len() < 0x1_0000_0000_0000,
    ensures
        after.lookup(key) == Some(value),
{
    match before.free_head() {
        None => {
            lemma_new_key_fields(before.slots().len() as u64, kind);
        },
        Some(h) => {
            lemma_key_fields_independent(h@, 0, kind);
        },
    }
}

/// Storing a value leaves every value that a key reached before in place.
pub proof fn law_insert_keeps_others<T>(
    before: Agents<T>,
    after: Agents<T>,
    value: T,
    kind: KeyKind,
    key: Key,
    other: Key,
)
    requires
        before.wf(),
        inserted(before, after, value, kind, key),
        before.lookup(other) is Some,
    ensures
        after.lookup(other) == before.lookup(other),
{
}

/// `remove` gives back the value that `insert` stored under the same key.
pub proof fn law_insert_then_remove<T>(
    s0: Agents<T>,
    s1: Agents<T>,
    s2: Agents<T>,
    value: T,
    kind: KeyKind,
    key: Key,
    r: Option<T>,
)
    requires
        s0.wf(),
        inserted(s0, s1, value, kind, key),
        removed(s1, s2, key, r),
        s0.free_head() is None ==> s0.slots().len() < 0x1_0000_0000_0000,
    ensures
        r == Some(value),
{
    law_insert_then_get(s0, s1, value, kind, key);
}

/// After `remove`, the removed key no longer reaches anything, and the number
/// of stored values drops by one.
pub proof fn law_remove_then_get<T>(before: Agents<T>, after: Agents<T>, key: Key, r: Option<T>)
    requires
        before.wf(),
        removed(before, after, key, r),
        before.lookup(key) is Some,
    ensures
        after.lookup(key) is None,
        r == before.lookup(key),
        occupied_count(after.slots()) + 1 == occupied_count(before.slots()),
{
    lemma_occupied_count_update(before.slots(), slot_of(key), Entry::Vacant(before.free_head()));
}

/// Removing under one key leaves every key of another slot reaching what it
/// reached before.
pub proof fn law_remove_keeps_others<T>(before: Agents<T>, after: Agents<T>, key: Key, r: Option<T>, other: Key)
    requires
        removed(before, after, key, r),
        slot_of(other) != slot_of(key),
    ensures
        after.lookup(other) == before.lookup(other),
{
}

/// Storing a value adds one to the number of stored values.
pub proof fn law_insert_count<T>(before: Agents<T>, after: Agents<T>, value: T, kind: KeyKind, key: Key)
    requires
        before.wf(),
        inserted(before, after, value, kind, key),
    ensures
        occupied_count(after.slots()) == occupied_count(before.slots()) + 1,
{
    match before.free_head() {
        None => {
            assert(after.slots().drop_last() == before.slots());
        },
        Some(h) => {
            lemma_occupied_count_update(
                before.slots(),
                slot_of(h),
                Entry::Occupied { value, gen: gen_of(h@) },
            );
        },
    }
}

/// A freed slot is reused by the next `insert`, under a key with the same index
/// and a new generation, so the key that was removed stays stale.
pub proof fn law_reuse_keeps_removed_key_stale<T>(
    s0: Agents<T>,
    s1: Agents<T>,
    s2: Agents<T>,
    key: Key,
    r: Option<T>,
    value: T,
    kind: KeyKind,
    key2: Key,
)
    requires
        s0.lookup(key) is Some,
        removed(s0, s1, key, r),
        inserted(s1, s2, value, kind, key2),
    ensures
        slot_of(key2) == slot_of(key),
        gen_of(key2@) == gen_of(bumped(key@)),
        gen_of(key2@) != gen_of(key@),
        s2.lookup(key) is None,
        s2.lookup(key2) == Some(value),
{
    let h = s1.free_head()->0;
    lemma_key_fields_independent(key@, 0, kind);
    lemma_key_fields_independent(h@, 0, kind);
    lemma_bump_changes_gen(key@);
}

/// A key freed by `remove` never reads the slot's next occupant: after storing a
/// value, removing it (which gives it back) and storing another, the second key
/// reaches the same slot under a new generation, it reaches the new value, and
/// the first key reaches nothing.
pub proof fn law_removed_key_never_reads_new_occupant<T>(
    s0: Agents<T>,
    s1: Agents<T>,
    s2: Agents<T>,
    s3: Agents<T>,
    v: T,
    kind: KeyKind,
    k: Key,
    r: Option<T>,
    v2: T,
    kind2: KeyKind,
    k2: Key,
)
    requires
        inserted(s0, s1, v, kind, k),
        removed(s1, s2, k, r),
        r == Some(v),
        inserted(s2, s3, v2, kind2, k2),
    ensures
        slot_of(k2) == slot_of(k),
        k2 != k,
        s3.lookup(k) is None,
        s3.lookup(k2) == Some(v2),
{
    let h = s2.free_head()->0;
    lemma_key_fields_independent(k@, 0, kind2);
    lemma_key_fields_independent(h@, 0, kind2);
    lemma_bump_changes_gen(k@);
}

/// Freed slots are reused last freed first: with every slot in use, after removing
/// two live keys of different slots, the next insert takes the slot of the second
/// under a new generation and the kind it is given, the one after takes the slot
/// of the first, and the third appends a slot at the end with generation 0 (while
/// the index fits in the 48 index bits); both reused keys reach their new values.
pub proof fn law_free_slots_reused_last_first<T>(
    s0: Agents<T>,
    s1: Agents<T>,
    s2: Agents<T>,
    s3: Agents<T>,
    s4: Agents<T>,
    s5: Agents<T>,
    k1: Key,
    r1: Option<T>,
    k2: Key,
    r2: Option<T>,
    v: T,
    kx: KeyKind,
    x: Key,
    w: T,
    ky: KeyKind,
    y: Key,
    u: T,
    kz: KeyKind,
    z: Key,
)
    requires
        s0.free_head() is None,
        s0.lookup(k1) is Some,
        s0.lookup(k2) is Some,
        slot_of(k1) != slot_of(k2),
        removed(s0, s1, k1, r1),
        removed(s1, s2, k2, r2),
        inserted(s2, s3, v, kx, x),
        inserted(s3, s4, w, ky, y),
        inserted(s4, s5, u, kz, z),
    ensures
        slot_of(x) == slot_of(k2),
        kind_code_of(x@) == kx.spec_code(),
        gen_of(x@) != gen_of(k2@),
        slot_of(y) == slot_of(k1),
        kind_code_of(y@) == ky.spec_code(),
        gen_of(y@) != gen_of(k1@),
        s0.slots().len() < 0x1_0000_0000_0000 ==> index_of(z@) == s0.slots().len() && gen_of(z@) == 0,
        s5.lookup(x) == Some(v),
        s5.lookup(y) == Some(w),
{
    let h1 = s1.free_head()->0;
    let h2 = s2.free_head()->0;
    lemma_key_fields_independent(k1@, 0, ky);
    lemma_key_fields_independent(k2@, 0, kx);
    lemma_key_fields_independent(h1@, 0, ky);
    lemma_key_fields_independent(h2@, 0, kx);
    lemma_bump_changes_gen(k1@);
    lemma_bump_changes_gen(k2@);
    assert(s3.free_head() == Some(h1));
    assert(s4.free_head() is None);
    if s0.slots().len() < 0x1_0000_0000_0000 {
        lemma_new_key_fields(s0.slots().len() as u64, kz);
    }
}

} // verus!

verus! {

/// A serialized instance of a `Key`, as a remote router hands it out.
#[derive(Debug, PartialEq)]
pub struct RemoteKey(Box<[u8]>);

impl Clone for RemoteKey {
    fn clone(&self) -> (r: Self)
        ensures
            r.bytes() == self.bytes(),
    {
        let bytes: &[u8] = &self.0;
        RemoteKey(crate::serializer::into_boxed_bytes(vstd::slice::slice_to_vec(bytes)))
    }
}

impl RemoteKey {
    /// The serialized bytes.
    pub closed spec fn bytes(&self) -> Seq<u8> {
        self.0@
    }

    /// A remote key holding some serialized bytes.
    pub fn new(bytes: Box<[u8]>) -> (r: Self)
        ensures
            r.bytes() == bytes@,
    {
        RemoteKey(bytes)
    }

    /// The serialized bytes.
    pub fn as_bytes(&self) -> (r: &[u8])
        ensures
            r@ == self.bytes(),
    {
        &self.0
    }

    /// Serialize a key in the given format.
    pub fn from_key(key: Key, serializer: Serializer) -> (r: Self)
        ensures
            r.bytes() == encoded_u64(serializer, key@),
    {
        match serializer.serialize_key(key.raw()) {
            Ok(bytes) => RemoteKey(bytes),
            Err(_) => {
                proof {
                    assert(false);
                }
                RemoteKey(crate::serializer::into_boxed_bytes(Vec::new()))
            },
        }
    }

    /// Deserialize the key, which the format must read.
    pub fn to_key(&self, serializer: Serializer) -> (r: Key)
        requires
            decoded_u64(serializer, self.bytes()) is Some,
        ensures
            Some(r@) == decoded_u64(serializer, self.bytes()),
    {
        match serializer.deserialize_key(&self.0) {
            Ok(raw) => Key::from_raw(raw),
            Err(_) => {
                proof {
                    assert(false);
                }
                Key::from_raw(0)
            },
        }
    }

    /// Deserialize the key if the format reads one; a remote key made from a
    /// key in the same format reads back as that key.
    pub fn try_to_key(&self, serializer: Serializer) -> (r: Option<Key>)
        ensures
            r is Some <==> decoded_u64(serializer, self.bytes()) is Some,
            r matches Some(k) ==> Some(k@) == decoded_u64(serializer, self.bytes()),
            forall|v: u64| self.bytes() == #[trigger] encoded_u64(serializer, v) ==> (r matches Some(k) && k@ == v),
    {
        match serializer.deserialize_key(&self.0) {
            Ok(_) => Some(self.to_key(serializer)),
            Err(_) => None,
        }
    }
}

} // verus!
