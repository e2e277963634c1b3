//! A backlog queue that drops its oldest entry when its buffer is full.
use std::collections::VecDeque;

use vstd::prelude::*;

verus! {

/// The contents after pushing `value` onto `items` when the buffer holds
/// `capacity` elements: the oldest entry is dropped first when one more element
/// would fill the buffer.
pub open spec fn pushed<T>(items: Seq<T>, value: T, capacity: int) -> Seq<T> {
    if items.len() + 1 == capacity && items.len() > 0 {
        items.drop_first().push(value)
    } else {
        items.push(value)
    }
}

/// A queue of backlogged values.
#[derive(Debug)]
pub struct Queue<T> {
    cap: usize,
    inner: VecDeque<T>,
}

impl<T> Queue<T> {
    /// The queued values, oldest first.
    pub closed spec fn items(&self) -> Seq<T> {
        self.inner@
    }

    /// The capacity the queue was created with.
    pub closed spec fn spec_cap(&self) -> usize {
        self.cap
    }

    /// An empty queue with room for `cap` values.
    pub fn with_capacity(cap: usize) -> (r: Self)
        ensures
            r.items() == Seq::<T>::empty(),
            r.spec_cap() == cap,
    {
        Queue { inner: VecDeque::with_capacity(cap), cap }
    }

    /// Push a value given the current capacity of the buffer.
    pub fn push_with_capacity(&mut self, value: T, capacity: usize)
        requires
            old(self).items().len() < usize::MAX,
        ensures
            final(self).items() == pushed(old(self).items(), value, capacity as int),
            final(self).spec_cap() == old(self).spec_cap(),
    {
        if self.inner.len() + 1 == capacity {
            let _ = self.inner.pop_front();
        }
        self.inner.push_back(value);
        proof {
            if old(self).items().len() > 0 {
                assert(old(self).items().subrange(1, old(self).items().len() as int)
                    == old(self).items().drop_first());
            }
        }
    }

    /// Push a value; when one more value would fill the buffer, the oldest
    /// value is dropped first.
    pub fn push(&mut self, value: T)
        requires
            old(self).items().len() < usize::MAX,
        ensures
            exists|capacity: usize|
                capacity >= old(self).items().len() && capacity >= old(self).spec_cap()
                    && final(self).items() == #[trigger] pushed(
                    old(self).items(),
                    value,
                    capacity as int,
                ),
            final(self).spec_cap() == old(self).spec_cap(),
    {
        let capacity = self.capacity();
        self.push_with_capacity(value, capacity);
    }

    /// `VecDeque::capacity` of the queue's buffer: how many values it holds
    /// without reallocating. It is at least the number of queued values, and at
    /// least the capacity the queue was made with: `VecDeque::with_capacity`
    /// allocates room for at least that many, and the queue never shrinks its
    /// buffer. How much more the allocator gave is left unsaid.
    #[verifier::external_body]
    pub(crate) fn capacity(&self) -> (r: usize)
        ensures
            r >= self.items().len(),
            r >= self.spec_cap(),
    {
        self.inner.capacity()
    }

    /// The number of queued values.
    pub fn len(&self) -> (r: usize)
        ensures
            r == self.items().len(),
    {
        self.inner.len()
    }

    /// Take the oldest value.
    pub fn pop(&mut self) -> (r: Option<T>)
        ensures
            match r {
                Some(v) => old(self).items().len() > 0 && v == old(self).items()[0]
                    && final(self).items() == old(self).items().drop_first(),
                None => old(self).items().len() == 0 && final(self).items() == old(self).items(),
            },
            final(self).spec_cap() == old(self).spec_cap(),
    {
        let r = self.inner.pop_front();
        proof {
            if old(self).items().len() > 0 {
                assert(old(self).items().subrange(1, old(self).items().len() as int)
                    == old(self).items().drop_first());
            }
        }
        r
    }
}

/// Whatever the buffer's capacity, a push keeps the newest value last and
/// never grows the queue by more than one.
pub proof fn law_push_keeps_newest<T>(items: Seq<T>, value: T, capacity: int)
    ensures
        pushed(items, value, capacity).last() == value,
        pushed(items, value, capacity).len() <= items.len() + 1,
        pushed(items, value, capacity).len() >= 1,
{
}

/// Where the buffer has room for more than one value beyond those queued, a push
/// drops nothing: the value joins the queue at the back.
pub proof fn law_push_below_capacity<T>(items: Seq<T>, value: T, capacity: int)
    requires
        capacity > items.len() + 1,
    ensures
        pushed(items, value, capacity) == items.push(value),
{
}

/// Popping after pushing onto an empty queue gives back the pushed value.
pub proof fn law_push_then_pop_empty<T>(value: T, capacity: int)
    ensures
        pushed(Seq::<T>::empty(), value, capacity) == seq![value],
{
    assert(Seq::<T>::empty().push(value) == seq![value]);
}

} // verus!
