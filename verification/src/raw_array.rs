//! The raw slot buffer underneath the array.
//!
//! A `RawArray` owns `cap` slots. Each slot is either empty or holds one
//! element; the buffer itself has no notion of a logical length.

use vstd::layout::size_of;
use vstd::prelude::*;

verus! {

/// Number of slots a buffer receives the first time it grows.
pub const INITIAL_CAPACITY: usize = 8;

/// The capacity a buffer of capacity `cap` has after one growth step:
/// `INITIAL_CAPACITY` for an unallocated buffer, otherwise twice `cap`.
pub open spec fn grown_capacity(cap: nat) -> nat {
    if cap == 0 {
        INITIAL_CAPACITY as nat
    } else {
        2 * cap
    }
}

/// Whether a block of `cap` elements of `T` stays within the largest byte
/// size a single allocation may have.
pub open spec fn block_fits<T>(cap: nat) -> bool {
    cap * size_of::<T>() <= isize::MAX
}

/// The slots after the `count` slots that start at `src` have been moved to
/// the range that starts at `dst`: a target slot holds what its source slot
/// held, a source slot that is no target is left empty, and every other slot
/// is unchanged. The two ranges may overlap.
pub open spec fn moved_block<T>(slots: Seq<Option<T>>, src: int, dst: int, count: int) -> Seq<
    Option<T>,
> {
    Seq::new(
        slots.len(),
        |j: int|
            if dst <= j < dst + count {
                slots[j - dst + src]
            } else if src <= j < src + count {
                None
            } else {
                slots[j]
            },
    )
}

/// The slots part way through a block move from `src` to `dst`, when only
/// the moves numbered `lo` up to `hi` have been made; move `k` takes slot
/// `src + k` to slot `dst + k`.
spec fn moved_range<T>(slots: Seq<Option<T>>, src: int, dst: int, lo: int, hi: int) -> Seq<
    Option<T>,
> {
    Seq::new(
        slots.len(),
        |j: int|
            if dst + lo <= j < dst + hi {
                slots[j - dst + src]
            } else if src + lo <= j < src + hi {
                None
            } else {
                slots[j]
            },
    )
}

/// Owner of the slot storage.
#[derive(Debug)]
pub struct RawArray<T> {
    slots: Vec<Option<T>>,
}

impl<T> View for RawArray<T> {
    type V = Seq<Option<T>>;

    /// The slots in order; `None` is a slot that holds no element.
    closed spec fn view(&self) -> Seq<Option<T>> {
        self.slots@
    }
}

impl<T> RawArray<T> {
    /// The element type occupies storage and the current block fits.
    pub open spec fn wf(&self) -> bool {
        &&& size_of::<T>() != 0
        &&& block_fits::<T>(self@.len())
    }

    /// A buffer with no slots. Nothing is allocated until the first growth.
    pub fn new() -> (buf: Self)
        requires
            size_of::<T>() != 0,
        ensures
            buf.wf(),
            buf@ == Seq::<Option<T>>::empty(),
    {
        RawArray { slots: Vec::new() }
    }

    /// Number of slots the buffer holds.
    pub fn cap(&self) -> (cap: usize)
        ensures
            cap == self@.len(),
    {
        self.slots.len()
    }

    /// Whether the block of the next growth step still fits, that is,
    /// whether `grow` may be called.
    pub fn can_grow(&self) -> (ok: bool)
        requires
            self.wf(),
        ensures
            ok == block_fits::<T>(grown_capacity(self@.len())),
    {
        let old_cap: usize = self.slots.len();
        proof {
            lemma_fitting_block_is_bounded::<T>(old_cap as nat);
        }
        let new_cap: usize = if old_cap == 0 {
            INITIAL_CAPACITY
        } else {
            2 * old_cap
        };
        match new_cap.checked_mul(core::mem::size_of::<T>()) {
            Some(bytes) => bytes <= isize::MAX as usize,
            None => false,
        }
    }

    /// Places `elem` in the empty slot `index`.
    pub fn write(&mut self, index: usize, elem: T)
        requires
            old(self).wf(),
            index < old(self)@.len(),
            old(self)@[index as int] is None,
        ensures
            final(self).wf(),
            final(self)@ == old(self)@.update(index as int, Some(elem)),
    {
        self.slots[index] = Some(elem);
    }

    /// Moves the element out of the occupied slot `index`, leaving it empty.
    pub fn read(&mut self, index: usize) -> (elem: T)
        requires
            old(self).wf(),
            index < old(self)@.len(),
            old(self)@[index as int] is Some,
        ensures
            final(self).wf(),
            old(self)@[index as int] == Some(elem),
            final(self)@ == old(self)@.update(index as int, None),
    {
        self.slots[index].take().unwrap()
    }

    /// Borrows the element in the occupied slot `index`.
    pub fn get(&self, index: usize) -> (elem: &T)
        requires
            index < self@.len(),
            self@[index as int] is Some,
        ensures
            self@[index as int] == Some(*elem),
    {
        self.slots[index].as_ref().unwrap()
    }

    /// Borrows the element in the occupied slot `index` for writing.
    pub fn get_mut(&mut self, index: usize) -> (elem: &mut T)
        requires
            old(self).wf(),
            index < old(self)@.len(),
            old(self)@[index as int] is Some,
        ensures
            final(self).wf(),
            old(self)@[index as int] == Some(*elem),
            final(self)@ == old(self)@.update(index as int, Some(*final(elem))),
    {
        self.slots[index].as_mut().unwrap()
    }

    /// Moves the `count` slots that start at `src` to the range that starts
    /// at `dst`, in an order that is safe when the two ranges overlap. Target
    /// slots outside the source range must be empty, so no element is lost.
    pub fn move_block(&mut self, src: usize, dst: usize, count: usize)
        requires
            old(self).wf(),
            src + count <= old(self)@.len(),
            dst + count <= old(self)@.len(),
            forall|j: int|
                dst <= j < dst + count && !(src <= j < src + count) ==> old(self)@[j] is None,
        ensures
            final(self).wf(),
            final(self)@ == moved_block(old(self)@, src as int, dst as int, count as int),
    {
        if dst <= src {
            let mut k: usize = 0;
            while k < count
                invariant
                    k <= count,
                    dst <= src,
                    src + count <= self.slots.len(),
                    self.slots.len() == old(self).slots@.len(),
                    forall|j: int|
                        dst <= j < dst + count && !(src <= j < src + count) ==> old(
                            self,
                        ).slots@[j] is None,
                    self.slots@ == moved_range(old(self).slots@, src as int, dst as int, 0, k as int),
                decreases count - k,
            {
                let moved = self.slots[src + k].take();
                assert(self.slots@[dst + k] is None);
                self.slots[dst + k] = moved;
                k += 1;
            }
        } else {
            let mut k: usize = count;
            while k > 0
                invariant
                    k <= count,
                    src < dst,
                    dst + count <= self.slots.len(),
                    self.slots.len() == old(self).slots@.len(),
                    forall|j: int|
                        dst <= j < dst + count && !(src <= j < src + count) ==> old(
                            self,
                        ).slots@[j] is None,
                    self.slots@ == moved_range(
                        old(self).slots@,
                        src as int,
                        dst as int,
                        k as int,
                        count as int,
                    ),
                decreases k,
            {
                k -= 1;
                let moved = self.slots[src + k].take();
                assert(self.slots@[dst + k] is None);
                self.slots[dst + k] = moved;
            }
        }
        assert(moved_range(old(self).slots@, src as int, dst as int, 0, count as int)
            =~= moved_block(old(self).slots@, src as int, dst as int, count as int));
    }

    /// Enlarges the buffer by one growth step. The slots that existed keep
    /// their contents; the added slots are empty.
    pub fn grow(&mut self)
        requires
            old(self).wf(),
            block_fits::<T>(grown_capacity(old(self)@.len())),
        ensures
            final(self).wf(),
            final(self)@.len() == grown_capacity(old(self)@.len()),
            final(self)@ == old(self)@ + Seq::new(
                (grown_capacity(old(self)@.len()) - old(self)@.len()) as nat,
                |i: int| None::<T>,
            ),
    {
        let old_cap: usize = self.slots.len();
        proof {
            lemma_fitting_block_is_bounded::<T>(grown_capacity(old_cap as nat));
        }
        let new_cap: usize = if old_cap == 0 {
            INITIAL_CAPACITY
        } else {
            2 * old_cap
        };
        self.slots.reserve(new_cap - old_cap);
        while self.slots.len() < new_cap
            invariant
                old_cap <= self.slots.len() <= new_cap,
                self.slots@ == old(self).slots@ + Seq::new(
                    (self.slots.len() - old_cap) as nat,
                    |i: int| None::<T>,
                ),
                old_cap == old(self).slots@.len(),
            decreases new_cap - self.slots.len(),
        {
            self.slots.push(None);
        }
    }
}

/// A block that fits, of elements that occupy storage, has at most
/// `isize::MAX` elements.
pub proof fn lemma_fitting_block_is_bounded<T>(cap: nat)
    requires
        size_of::<T>() != 0,
        block_fits::<T>(cap),
    ensures
        cap <= isize::MAX,
{
    assert(cap <= cap * size_of::<T>()) by (nonlinear_arith)
        requires
            size_of::<T>() >= 1,
    ;
}

} // verus!
