//! The growable array: a raw slot buffer plus the count of live elements.
//!
//! The first `len` slots of the buffer hold the elements, in order; every
//! slot from `len` on is empty.

use crate::into_iter::IntoIter;
use crate::raw_array::{
    block_fits, grown_capacity, lemma_fitting_block_is_bounded, RawArray, INITIAL_CAPACITY,
};
use vstd::layout::size_of;
use vstd::prelude::*;

verus! {

/// The capacity of an array after one element was added to `len` elements
/// held in `cap` slots: unchanged while a slot is free, one growth step
/// when the array is full.
pub open spec fn capacity_after_push(len: nat, cap: nat) -> nat {
    if len == cap {
        grown_capacity(cap)
    } else {
        cap
    }
}

/// The capacity after `count` elements were added, one at a time, to `len`
/// elements held in `cap` slots.
pub open spec fn capacity_after_pushes(len: nat, cap: nat, count: nat) -> nat
    decreases count,
{
    if count == 0 {
        cap
    } else {
        capacity_after_pushes(len + 1, capacity_after_push(len, cap), (count - 1) as nat)
    }
}

/// The elements of an array that held `elems` after the values of `items`
/// were pushed one at a time, first to last.
pub open spec fn pushed_all<T>(elems: Seq<T>, items: Seq<T>) -> Seq<T>
    decreases items.len(),
{
    if items.len() == 0 {
        elems
    } else {
        pushed_all(elems.push(items.first()), items.drop_first())
    }
}

/// A dynamic array of `T`.
#[derive(Debug)]
pub struct Array<T> {
    buf: RawArray<T>,
    len: usize,
}

impl<T> View for Array<T> {
    type V = Seq<T>;

    /// The live elements, in order.
    closed spec fn view(&self) -> Seq<T> {
        Seq::new(self.len as nat, |i: int| self.buf@[i]->0)
    }
}

impl<T> Array<T> {
    /// The length is within the capacity, exactly the first `len` slots are
    /// occupied, and the buffer is well formed.
    pub closed spec fn wf(&self) -> bool {
        &&& self.buf.wf()
        &&& self.len <= self.buf@.len()
        &&& forall|i: int| 0 <= i < self.len ==> self.buf@[i] is Some
        &&& forall|i: int| self.len <= i < self.buf@.len() ==> self.buf@[i] is None
    }

    /// Number of slots the array owns.
    pub closed spec fn capacity(&self) -> nat {
        self.buf@.len()
    }

    /// Whether one more element can be added: a slot is free, or the block
    /// of the next growth step still fits.
    pub open spec fn spec_can_push(&self) -> bool {
        self@.len() < self.capacity() || block_fits::<T>(grown_capacity(self.capacity()))
    }

    /// An empty array. Nothing is allocated until the first element arrives.
    pub fn new() -> (arr: Self)
        requires
            size_of::<T>() != 0,
        ensures
            arr.wf(),
            arr@ == Seq::<T>::empty(),
            arr.capacity() == 0,
    {
        Array { buf: RawArray::new(), len: 0 }
    }

    /// Number of live elements.
    pub fn len(&self) -> (len: usize)
        ensures
            len == self@.len(),
    {
        self.len
    }

    /// Number of slots the array owns.
    pub fn cap(&self) -> (cap: usize)
        ensures
            cap == self.capacity(),
    {
        self.buf.cap()
    }

    /// Whether one more element can be added, that is, whether `push` and
    /// `insert` may be called.
    #[verifier::when_used_as_spec(spec_can_push)]
    pub fn can_push(&self) -> (ok: bool)
        requires
            self.wf(),
        ensures
            ok == self.spec_can_push(),
    {
        self.len < self.cap() || self.buf.can_grow()
    }

    /// Appends `elem`, growing the buffer first when the array is full.
    pub fn push(&mut self, elem: T)
        requires
            old(self).wf(),
            old(self).can_push(),
        ensures
            final(self).wf(),
            final(self)@ == old(self)@.push(elem),
            final(self).capacity() == capacity_after_push(old(self)@.len(), old(self).capacity()),
    {
        if self.len == self.cap() {
            self.buf.grow();
        }
        proof {
            lemma_fitting_block_is_bounded::<T>(self.buf@.len());
        }
        self.buf.write(self.len, elem);
        self.len += 1;
    }

    /// Removes the last element and returns it; on an empty array returns
    /// `None` and leaves the array as it was.
    pub fn pop(&mut self) -> (popped: Option<T>)
        requires
            old(self).wf(),
        ensures
            final(self).wf(),
            final(self).capacity() == old(self).capacity(),
            old(self)@.len() == 0 ==> popped is None && *final(self) == *old(self),
            old(self)@.len() > 0 ==> popped == Some(old(self)@.last()) && final(self)@ == old(
                self,
            )@.drop_last(),
    {
        if self.len == 0 {
            None
        } else {
            self.len -= 1;
            Some(self.buf.read(self.len))
        }
    }

    /// Places `elem` at position `index`, moving the elements from `index` on
    /// one slot to the right. Grows the buffer first when the array is full.
    pub fn insert(&mut self, index: usize, elem: T)
        requires
            old(self).wf(),
            old(self).can_push(),
            index <= old(self)@.len(),
        ensures
            final(self).wf(),
            final(self)@ == old(self)@.insert(index as int, elem),
            final(self).capacity() == capacity_after_push(old(self)@.len(), old(self).capacity()),
    {
        if self.cap() == self.len {
            self.buf.grow();
        }
        proof {
            lemma_fitting_block_is_bounded::<T>(self.buf@.len());
        }
        self.buf.move_block(index, index + 1, self.len - index);
        self.buf.write(index, elem);
        self.len += 1;
    }

    /// Takes the element at position `index` out and returns it, moving the
    /// elements after it one slot to the left.
    pub fn remove(&mut self, index: usize) -> (removed: T)
        requires
            old(self).wf(),
            index < old(self)@.len(),
        ensures
            final(self).wf(),
            removed == old(self)@[index as int],
            final(self)@ == old(self)@.remove(index as int),
            final(self).capacity() == old(self).capacity(),
    {
        self.len -= 1;
        let removed = self.buf.read(index);
        self.buf.move_block(index + 1, index, self.len - index);
        removed
    }

    /// Borrows the element at position `index`.
    pub fn get(&self, index: usize) -> (elem: &T)
        requires
            self.wf(),
            index < self@.len(),
        ensures
            *elem == self@[index as int],
    {
        self.buf.get(index)
    }

    /// Borrows the element at position `index` for writing. Whatever the
    /// caller leaves behind the reference is the element at `index` afterwards.
    pub fn get_mut(&mut self, index: usize) -> (elem: &mut T)
        requires
            old(self).wf(),
            index < old(self)@.len(),
        ensures
            *elem == old(self)@[index as int],
            final(self).wf(),
            final(self)@ == old(self)@.update(index as int, *final(elem)),
            final(self).capacity() == old(self).capacity(),
    {
        self.buf.get_mut(index)
    }

    /// Empties the array by popping until no element is left, so the
    /// elements are dropped last to first. The buffer keeps its capacity.
    pub fn clear(&mut self)
        requires
            old(self).wf(),
        ensures
            final(self).wf(),
            final(self)@ == Seq::<T>::empty(),
            final(self).capacity() == old(self).capacity(),
    {
        while self.len > 0
            invariant
                self.wf(),
                self.capacity() == old(self).capacity(),
            decreases self@.len(),
        {
            let _ = self.pop();
        }
    }

    /// Turns the array into an iterator that owns its buffer and hands the
    /// elements out by value.
    pub fn into_iter(self) -> (iter: IntoIter<T>)
        requires
            self.wf(),
        ensures
            iter.wf(),
            iter@ == self@,
            iter.capacity() == self.capacity(),
    {
        let len: usize = self.len;
        IntoIter::from_raw(self.buf, len)
    }
}

/// What holds of every well-formed array, stated over its view and its
/// capacity as the operations' contracts use them.
impl<T> Array<T> {
    /// The length is within the capacity, the element type occupies storage,
    /// and the block of the current capacity fits.
    pub proof fn lemma_len_within_capacity(&self)
        requires
            self.wf(),
        ensures
            self@.len() <= self.capacity() <= isize::MAX,
            block_fits::<T>(self.capacity()),
            size_of::<T>() != 0,
    {
        lemma_fitting_block_is_bounded::<T>(self.buf@.len());
    }

    /// Pushing a sequence of values appends them in order: the elements that
    /// were there stay where they are, and the `i`-th pushed value ends up
    /// `i` positions after them. On an empty array, position `i` then holds
    /// the `i`-th pushed value.
    pub proof fn lemma_pushes_keep_order(&self, items: Seq<T>)
        requires
            self.wf(),
        ensures
            pushed_all(self@, items) == self@ + items,
            pushed_all(self@, items).len() == self@.len() + items.len(),
            forall|i: int| 0 <= i < self@.len() ==> pushed_all(self@, items)[i] == self@[i],
            forall|i: int|
                0 <= i < items.len() ==> pushed_all(self@, items)[self@.len() + i] == items[i],
            self@.len() == 0 ==> pushed_all(self@, items) == items,
    {
        lemma_pushed_all_appends(self@, items);
        if self@.len() == 0 {
            assert(self@ + items =~= items);
        }
    }

    /// Pushing a value and popping right after hands that value back and
    /// leaves the elements, and so the length, as they were before the push.
    pub proof fn lemma_push_then_pop(&self, elem: T)
        requires
            self.wf(),
        ensures
            self@.push(elem).len() > 0,
            self@.push(elem).last() == elem,
            self@.push(elem).drop_last() == self@,
            self@.push(elem).drop_last().len() == self@.len(),
    {
        assert(self@.push(elem).drop_last() =~= self@);
    }

    /// Inserting into an empty array at position 0 gives the array of that
    /// one element.
    pub proof fn lemma_insert_into_empty(&self, elem: T)
        requires
            self.wf(),
            self@.len() == 0,
        ensures
            self@.insert(0, elem) == seq![elem],
    {
        assert(self@.insert(0, elem) =~= seq![elem]);
    }

    /// Inserting a value at a position and removing at that position right
    /// after hands that value back and leaves the elements, and so the
    /// length, as they were before the insertion.
    pub proof fn lemma_insert_then_remove(&self, index: usize, elem: T)
        requires
            self.wf(),
            index <= self@.len(),
        ensures
            index < self@.insert(index as int, elem).len(),
            self@.insert(index as int, elem)[index as int] == elem,
            self@.insert(index as int, elem).remove(index as int) == self@,
            self@.insert(index as int, elem).remove(index as int).len() == self@.len(),
    {
        assert(self@.insert(index as int, elem).remove(index as int) =~= self@);
    }

    /// As long as the elements stay within the capacity, pushing leaves the
    /// capacity alone.
    pub proof fn lemma_pushes_within_capacity_keep_it(&self, count: nat)
        requires
            self.wf(),
            self@.len() + count <= self.capacity(),
        ensures
            capacity_after_pushes(self@.len(), self.capacity(), count) == self.capacity(),
    {
        lemma_capacity_kept_below_limit(self@.len(), self.capacity(), count);
    }

    /// Pushing onto a full array always enlarges it: to the initial capacity
    /// when nothing was allocated yet, to twice the capacity otherwise.
    pub proof fn lemma_push_when_full_grows(&self)
        requires
            self.wf(),
            self@.len() == self.capacity(),
        ensures
            self.capacity() == 0 ==> capacity_after_push(self@.len(), self.capacity())
                == INITIAL_CAPACITY,
            self.capacity() > 0 ==> capacity_after_push(self@.len(), self.capacity()) == 2
                * self.capacity(),
            capacity_after_push(self@.len(), self.capacity()) > self@.len(),
    {
    }
}

/// Pushing the values of `items` one at a time appends `items`.
proof fn lemma_pushed_all_appends<T>(elems: Seq<T>, items: Seq<T>)
    ensures
        pushed_all(elems, items) == elems + items,
    decreases items.len(),
{
    if items.len() == 0 {
        assert(elems + items =~= elems);
    } else {
        lemma_pushed_all_appends(elems.push(items.first()), items.drop_first());
        assert(elems.push(items.first()) + items.drop_first() =~= elems + items);
    }
}

/// `count` pushes that stay within `cap` slots never trigger a growth step.
proof fn lemma_capacity_kept_below_limit(len: nat, cap: nat, count: nat)
    requires
        len + count <= cap,
    ensures
        capacity_after_pushes(len, cap, count) == cap,
    decreases count,
{
    if count > 0 {
        lemma_capacity_kept_below_limit(len + 1, cap, (count - 1) as nat);
    }
}

/// `arr[index]` reads the element at position `index`.
impl<T> core::ops::Index<usize> for Array<T> {
    type Output = T;

    fn index(&self, index: usize) -> (elem: &T)
        ensures
            *elem == self@[index as int],
    {
        self.get(index)
    }
}

impl<T> vstd::std_specs::core::IndexSpecImpl<usize> for Array<T> {
    /// Indexing asks for a position below the length.
    open spec fn index_req(&self, index: &usize) -> bool {
        self.wf() && *index < self@.len()
    }
}

} // verus!
