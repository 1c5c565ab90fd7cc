//! The exclusive view over one full window of the buffer.

use vstd::prelude::*;

use vstd::std_specs::cmp::PartialEqSpec;

use crate::storage::{lemma_rotated_index, physical_of, rotated};

verus! {

/// One full window, in logical order.  It temporarily owns the backing
/// buffer of the `Storage` it was minted from; giving it back with
/// `Adaptor::release` re-enables the next window.
///
/// A window's view (`w@`) is the element sequence in logical order; writes
/// through `get_mut` land in the backing buffer and persist after release.
#[derive(Debug)]
pub struct Window<T> {
    data: Vec<T>,
    window_offset: usize,
}

impl<T> View for Window<T> {
    type V = Seq<T>;

    closed spec fn view(&self) -> Seq<T> {
        rotated(self.data@, self.window_offset as int)
    }
}

impl<T> Window<T> {
    /// Well-formedness: the offset names a valid slot.
    pub closed spec fn wf(&self) -> bool {
        self.window_offset == 0 || self.window_offset < self.data@.len()
    }

    /// Assemble a window from a buffer and the slot of its logically-first
    /// element; only `Storage` mints windows this way.
    pub(crate) fn from_parts(data: Vec<T>, window_offset: usize) -> (w: Window<T>)
        requires
            window_offset == 0 || window_offset < data@.len(),
        ensures
            w.wf(),
            w@ == rotated(data@, window_offset as int),
            w@.len() == data@.len(),
    {
        Window { data, window_offset }
    }

    /// Give the buffer back, with the slot of its logically-first element;
    /// only `Storage` takes windows apart this way.
    pub(crate) fn into_parts(self) -> (r: (Vec<T>, usize))
        requires
            self.wf(),
        ensures
            r.1 == 0 || r.1 < r.0@.len(),
            self@ == rotated(r.0@, r.1 as int),
            self@.len() == r.0@.len(),
    {
        (self.data, self.window_offset)
    }

    /// How many elements the window holds.
    pub fn len(&self) -> (n: usize)
        requires
            self.wf(),
        ensures
            n == self@.len(),
    {
        proof {
            assert(self@.len() == self.data@.len());
        }
        self.data.len()
    }

    /// Read the element at logical position `i`.
    pub fn get(&self, i: usize) -> (r: &T)
        requires
            self.wf(),
            i < self@.len(),
        ensures
            *r == self@[i as int],
    {
        proof {
            assert(self@.len() == self.data@.len());
        }
        let n = self.data.len();
        let off = self.window_offset;
        let phys = if i < n - off {
            off + i
        } else {
            i - (n - off)
        };
        &self.data[phys]
    }

    /// Borrow the element at logical position `i` mutably; the write is kept
    /// by the window, and through it by the backing buffer.
    pub fn get_mut(&mut self, i: usize) -> (r: &mut T)
        requires
            old(self).wf(),
            i < old(self)@.len(),
        ensures
            *r == old(self)@[i as int],
            final(self)@ == old(self)@.update(i as int, *final(r)),
            final(self).wf(),
    {
        proof {
            assert(old(self)@.len() == old(self).data@.len());
        }
        let n = self.data.len();
        let off = self.window_offset;
        let phys = if i < n - off {
            off + i
        } else {
            i - (n - off)
        };
        let r = &mut self.data[phys];
        proof {
            lemma_rotated_update(old(self).data@, off as int, i as int, *final(r));
        }
        r
    }

    /// A fresh traversal of the window from logical position 0.
    pub fn iter(&self) -> (it: WindowIter)
        ensures
            it.pos() == 0,
    {
        WindowIter { iteration_num: 0 }
    }

    /// A fresh mutable traversal of the window from logical position 0.
    pub fn iter_mut(&mut self) -> (it: WindowIterMut)
        ensures
            it.pos() == 0,
            *final(self) == *old(self),
    {
        WindowIterMut { iteration_num: 0 }
    }

    /// Element-wise, length-sensitive comparison against a contiguous
    /// sequence.  Exact whenever `T`'s equality obeys its specification,
    /// which it does for the primitive types.
    pub fn eq_slice(&self, other: &[T]) -> (r: bool) where T: PartialEq
        requires
            self.wf(),
        ensures
            T::obeys_eq_spec() ==> (r <==> (self@.len() == other@.len() && (forall|j: int|
                0 <= j < self@.len() ==> self@[j].eq_spec(&other@[j])))),
    {
        if self.len() != other.len() {
            return false;
        }
        let n = self.len();
        let mut j: usize = 0;
        while j < n
            invariant
                self.wf(),
                n == self@.len() == other@.len(),
                0 <= j <= n,
                T::obeys_eq_spec() ==> (forall|k: int| 0 <= k < j ==> self@[k].eq_spec(&other@[k])),
            decreases n - j,
        {
            if !(*self.get(j) == other[j]) {
                return false;
            }
            j += 1;
        }
        true
    }
}

/// A traversal of a `Window` in logical order, yielding shared references.
/// It is a cursor: each step borrows the window it walks.
pub struct WindowIter {
    iteration_num: usize,
}

impl WindowIter {
    /// The logical position the next step will yield.
    pub closed spec fn pos(&self) -> nat {
        self.iteration_num as nat
    }

    /// The element at the current position, advancing the cursor; `None` once
    /// the traversal has covered the whole window.
    pub fn next<'a, T>(&mut self, window: &'a Window<T>) -> (r: Option<&'a T>)
        requires
            window.wf(),
        ensures
            old(self).pos() < window@.len() ==> (r matches Some(e) && *e == window@[old(
                self,
            ).pos() as int] && final(self).pos() == old(self).pos() + 1),
            old(self).pos() >= window@.len() ==> (r is None && final(self).pos() == old(
                self,
            ).pos()),
    {
        let i = self.iteration_num;
        if i < window.len() {
            self.iteration_num = i + 1;
            Some(window.get(i))
        } else {
            None
        }
    }
}

/// A traversal of a `Window` in logical order, yielding mutable references.
/// It is a cursor: each step borrows the window it walks.
pub struct WindowIterMut {
    iteration_num: usize,
}

impl WindowIterMut {
    /// The logical position the next step will yield.
    pub closed spec fn pos(&self) -> nat {
        self.iteration_num as nat
    }

    /// The element at the current position, mutably, advancing the cursor;
    /// `None` once the traversal has covered the whole window.  A write
    /// through the yielded reference lands at that position of the window.
    pub fn next<'a, T>(&mut self, window: &'a mut Window<T>) -> (r: Option<&'a mut T>)
        requires
            old(window).wf(),
        ensures
            old(self).pos() < old(window)@.len() ==> (r matches Some(e) && *e == old(window)@[old(
                self,
            ).pos() as int] && final(window)@ == old(window)@.update(
                old(self).pos() as int,
                *final(e),
            ) && final(window).wf() && final(self).pos() == old(self).pos() + 1),
            old(self).pos() >= old(window)@.len() ==> (r is None && final(self).pos() == old(
                self,
            ).pos() && *final(window) == *old(window)),
    {
        let i = self.iteration_num;
        if i < window.len() {
            self.iteration_num = i + 1;
            Some(window.get_mut(i))
        } else {
            None
        }
    }
}

/// Updating the physical slot behind logical position `i` updates exactly
/// position `i` of the rotated (logical) sequence.
proof fn lemma_rotated_update<T>(s: Seq<T>, off: int, i: int, v: T)
    requires
        0 <= off,
        off == 0 || off < s.len(),
        0 <= i < s.len(),
    ensures
        rotated(s.update(physical_of(s.len() as int, off, i), v), off) == rotated(s, off).update(
            i,
            v,
        ),
{
    let n = s.len() as int;
    let p = physical_of(n, off, i);
    let su = s.update(p, v);
    assert forall|j: int| 0 <= j < n implies rotated(su, off)[j] == rotated(s, off).update(i, v)[j] by {
        lemma_rotated_index(s, off, j);
        lemma_rotated_index(su, off, j);
    };
    assert(rotated(su, off) =~= rotated(s, off).update(i, v));
}

} // verus!
