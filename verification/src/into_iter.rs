//! The owning, double-ended iterator an array turns into.
//!
//! The iterator keeps the array's buffer and two positions: `start` is the
//! slot of the next element from the front, `end` is one past the slot of the
//! next element from the back. The slots in between are exactly the elements
//! not yet handed out; every other slot is empty.

use crate::raw_array::RawArray;
use vstd::prelude::*;

verus! {

/// Hands out the elements of a consumed array by value, from either end.
pub struct IntoIter<T> {
    buf: RawArray<T>,
    start: usize,
    end: usize,
}

impl<T> View for IntoIter<T> {
    type V = Seq<T>;

    /// The elements not yet handed out, front to back.
    closed spec fn view(&self) -> Seq<T> {
        Seq::new((self.end - self.start) as nat, |i: int| self.buf@[self.start + i]->0)
    }
}

impl<T> IntoIter<T> {
    /// The two positions are ordered and within the buffer, exactly the
    /// slots between them are occupied, and the buffer is well formed.
    pub closed spec fn wf(&self) -> bool {
        &&& self.buf.wf()
        &&& self.start <= self.end <= self.buf@.len()
        &&& forall|i: int| self.start <= i < self.end ==> self.buf@[i] is Some
        &&& forall|i: int|
            0 <= i < self.buf@.len() && !(self.start <= i < self.end) ==> self.buf@[i] is None
    }

    /// Number of slots of the buffer the iterator took over.
    pub closed spec fn capacity(&self) -> nat {
        self.buf@.len()
    }

    /// In every well-formed iterator the elements left are within the
    /// capacity.
    pub proof fn lemma_len_within_capacity(&self)
        requires
            self.wf(),
        ensures
            self@.len() <= self.capacity(),
    {
    }

    /// An iterator over the first `len` slots of `buf`, which must be the
    /// occupied ones.
    pub(crate) fn from_raw(buf: RawArray<T>, len: usize) -> (iter: Self)
        requires
            buf.wf(),
            len <= buf@.len(),
            forall|i: int| 0 <= i < len ==> buf@[i] is Some,
            forall|i: int| len <= i < buf@.len() ==> buf@[i] is None,
        ensures
            iter.wf(),
            iter@ == Seq::new(len as nat, |i: int| buf@[i]->0),
            iter.capacity() == buf@.len(),
    {
        IntoIter { buf, start: 0, end: len }
    }

    /// Hands out the element at the front, or `None` when none is left.
    pub fn next(&mut self) -> (item: Option<T>)
        requires
            old(self).wf(),
        ensures
            final(self).wf(),
            final(self).capacity() == old(self).capacity(),
            old(self)@.len() == 0 ==> item is None && *final(self) == *old(self),
            old(self)@.len() > 0 ==> item == Some(old(self)@.first()) && final(self)@ == old(
                self,
            )@.drop_first(),
    {
        if self.start == self.end {
            None
        } else {
            let item = self.buf.read(self.start);
            self.start += 1;
            Some(item)
        }
    }

    /// Hands out the element at the back, or `None` when none is left.
    pub fn next_back(&mut self) -> (item: Option<T>)
        requires
            old(self).wf(),
        ensures
            final(self).wf(),
            final(self).capacity() == old(self).capacity(),
            old(self)@.len() == 0 ==> item is None && *final(self) == *old(self),
            old(self)@.len() > 0 ==> item == Some(old(self)@.last()) && final(self)@ == old(
                self,
            )@.drop_last(),
    {
        if self.start == self.end {
            None
        } else {
            self.end -= 1;
            let item = self.buf.read(self.end);
            Some(item)
        }
    }

    /// Drops the elements not yet handed out, front to back.
    pub fn clear(&mut self)
        requires
            old(self).wf(),
        ensures
            final(self).wf(),
            final(self)@ == Seq::<T>::empty(),
            final(self).capacity() == old(self).capacity(),
    {
        while self.start < self.end
            invariant
                self.wf(),
                self.capacity() == old(self).capacity(),
            decreases self@.len(),
        {
            let _ = self.next();
        }
    }

    /// The exact number of elements left, as lower and upper bound.
    pub fn size_hint(&self) -> (hint: (usize, Option<usize>))
        requires
            self.wf(),
        ensures
            hint.0 == self@.len(),
            hint.1 == Some(hint.0),
    {
        let len: usize = self.end - self.start;
        (len, Some(len))
    }
}

} // verus!
