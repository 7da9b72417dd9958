//! A growable array that keeps count of the room it has asked for.

use vstd::prelude::*;
use vstd::std_specs::iter::IteratorSpec;

verus! {

/// A growable array. Its capacity is the number of items it has room for;
/// it never holds more items than that.
pub struct RawVec<T> {
    items: Vec<T>,
    /// The room that was asked for; the capacity is this or the number of
    /// items, whichever is more.
    room: usize,
}

impl<T> View for RawVec<T> {
    type V = Seq<T>;

    closed spec fn view(&self) -> Seq<T> {
        self.items@
    }
}

impl<T> RawVec<T> {
    /// The number of items the array has room for.
    pub closed spec fn spec_cap(&self) -> usize {
        if self.room >= self.items.len() {
            self.room
        } else {
            self.items.len()
        }
    }

    /// An array holds no more items than it has room for.
    pub proof fn lemma_len_le_cap(&self)
        ensures
            self@.len() <= self.spec_cap(),
    {
    }

    /// The capacity after room for `cap` items is asked for: an array
    /// without room takes `cap`; one with room takes `cap` if that is more.
    pub open spec fn grown(old_cap: usize, cap: usize) -> usize {
        if old_cap == 0 && cap > 0 {
            cap
        } else if cap > old_cap {
            cap
        } else {
            old_cap
        }
    }

    /// The capacity after one more item is put into an array of `len` items:
    /// a full array first asks for room for four, and for one more than it
    /// has if that does not help.
    pub open spec fn pushed_cap(old_cap: usize, len: nat) -> usize {
        if len < old_cap {
            old_cap
        } else if Self::grown(old_cap, 4) > len {
            Self::grown(old_cap, 4)
        } else {
            (len + 1) as usize
        }
    }

    /// An empty array with room for `cap` items.
    pub fn with_cap(cap: usize) -> (r: Self)
        ensures
            r@ == Seq::<T>::empty(),
            r.spec_cap() == cap,
    {
        RawVec { items: Vec::new(), room: cap }
    }

    /// The array that holds the items of `v`, with room for just these.
    pub fn from_vec(v: Vec<T>) -> (r: RawVec<T>)
        ensures
            r@ == v@,
            r.spec_cap() == v@.len(),
    {
        let cap = v.len();
        RawVec { items: v, room: cap }
    }

    /// The items of the array, front to back.
    pub fn into_iter(self) -> (it: std::vec::IntoIter<T>)
        ensures
            it.remaining() == self@,
    {
        self.items.into_iter()
    }

    /// The number of items the array holds.
    pub fn len(&self) -> (r: usize)
        ensures
            r == self@.len(),
    {
        self.items.len()
    }

    /// `true` when the array holds no item.
    pub fn is_empty(&self) -> (r: bool)
        ensures
            r == (self@.len() == 0),
    {
        self.items.len() == 0
    }

    /// The number of items the array has room for.
    pub fn cap(&self) -> (r: usize)
        ensures
            r == self.spec_cap(),
            self@.len() <= r,
    {
        if self.room >= self.items.len() {
            self.room
        } else {
            self.items.len()
        }
    }

    /// The items as a slice.
    pub fn slice(&self) -> (r: &[T])
        ensures
            r@ == self@,
    {
        self.items.as_slice()
    }

    /// The items as a slice that can be written through.
    pub fn slice_mut(&mut self) -> (r: &mut [T])
        ensures
            r@ == old(self)@,
            final(self)@ == final(r)@,
            final(r)@.len() == old(self)@.len() ==> final(self).spec_cap() == old(self).spec_cap(),
    {
        self.room = self.cap();
        self.items.as_mut_slice()
    }

    /// An iterator over the items, front to back.
    pub fn iter(&self) -> (it: std::slice::Iter<'_, T>)
        ensures
            it.remaining() == self@.as_ref(),
    {
        self.items.as_slice().iter()
    }

    /// The item at `index`.
    pub fn get(&self, index: usize) -> (r: &T)
        requires
            index < self@.len(),
        ensures
            *r == self@[index as int],
    {
        &self.items[index]
    }

    /// Asks for room for `cap` items; the items stay as they are.
    pub fn grow(&mut self, cap: usize)
        ensures
            final(self)@ == old(self)@,
            final(self).spec_cap() == Self::grown(old(self).spec_cap(), cap),
    {
        let now = self.cap();
        if now == 0 && cap > 0 {
            self.room = cap;
        } else if cap > now {
            self.room = cap;
        } else {
            self.room = now;
        }
    }

    /// Puts `item` at the end of the array.
    pub fn push(&mut self, item: T)
        ensures
            final(self)@ == old(self)@.push(item),
            final(self).spec_cap() == Self::pushed_cap(old(self).spec_cap(), old(self)@.len()),
    {
        let now = self.cap();
        if self.items.len() == now {
            self.grow(4);
        } else {
            self.room = now;
        }
        self.items.push(item);
    }

    /// Takes the last item off the array, if it has one.
    pub fn pop(&mut self) -> (r: Option<T>)
        ensures
            final(self).spec_cap() == old(self).spec_cap(),
            match r {
                Some(item) => old(self)@.len() > 0 && item == old(self)@.last() && final(self)@
                    == old(self)@.drop_last(),
                None => old(self)@.len() == 0 && final(self)@ == old(self)@,
            },
    {
        self.room = self.cap();
        self.items.pop()
    }

    /// Takes the item at `index` out of the array; the items behind it move
    /// one place to the front.
    pub fn remove(&mut self, index: usize) -> (r: T)
        requires
            index < old(self)@.len(),
        ensures
            r == old(self)@[index as int],
            final(self)@ == old(self)@.remove(index as int),
            final(self).spec_cap() == old(self).spec_cap(),
    {
        self.room = self.cap();
        self.items.remove(index)
    }
}

} // verus!
