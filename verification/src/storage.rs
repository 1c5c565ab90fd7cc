//! The backing buffer that owns the elements of the current window.

use vstd::prelude::*;

use crate::window::Window;

verus! {

/// `s` rotated left by `off` positions: the elements from `off` on, then the
/// elements before `off`.  This maps the physical layout of a ring buffer to
/// its logical order.
pub open spec fn rotated<T>(s: Seq<T>, off: int) -> Seq<T> {
    s.subrange(off, s.len() as int) + s.subrange(0, off)
}

/// The physical slot behind logical position `i` of a ring of length `len`
/// whose logically-first element sits at slot `off`.
pub(crate) open spec fn physical_of(len: int, off: int, i: int) -> int {
    if i < len - off {
        off + i
    } else {
        i - (len - off)
    }
}

/// Position `j` of the rotated (logical) sequence is the physical slot that
/// `physical_of` names.
pub(crate) proof fn lemma_rotated_index<T>(s: Seq<T>, off: int, j: int)
    requires
        0 <= off <= s.len(),
        0 <= j < s.len(),
    ensures
        rotated(s, off)[j] == s[physical_of(s.len() as int, off, j)],
{
    if j < s.len() - off {
        assert(rotated(s, off)[j] == s.subrange(off, s.len() as int)[j]);
    } else {
        assert(rotated(s, off)[j] == s.subrange(0, off)[j - (s.len() - off)]);
    }
}

/// Overwriting the logically-first slot of a full ring and advancing the
/// offset drops the logically-first element and appends the new one.
proof fn lemma_rotated_overwrite<T>(s: Seq<T>, off: int, e: T)
    requires
        s.len() >= 1,
        0 <= off < s.len(),
    ensures
        ({
            let n = s.len() as int;
            let off2 = if off >= n - 1 {
                0int
            } else {
                off + 1
            };
            rotated(s.update(off, e), off2) == rotated(s, off).drop_first().push(e)
        }),
{
    let n = s.len() as int;
    let off2 = if off >= n - 1 {
        0int
    } else {
        off + 1
    };
    let su = s.update(off, e);
    let lhs = rotated(su, off2);
    let rhs = rotated(s, off).drop_first().push(e);
    assert forall|j: int| 0 <= j < n implies lhs[j] == rhs[j] by {
        lemma_rotated_index(su, off2, j);
        if j < n - 1 {
            lemma_rotated_index(s, off, j + 1);
        }
    };
    assert(lhs =~= rhs);
}

/// The logical content of a buffer of window size `s` after one more element
/// `e` arrives: while filling, `e` is appended; once `s` elements are held,
/// the logically-first element is dropped to make room.
pub open spec fn pushed<T>(c: Seq<T>, e: T, s: nat) -> Seq<T> {
    if c.len() < s {
        c.push(e)
    } else {
        c.drop_first().push(e)
    }
}

/// Holds the backing allocation for the `Window`s of an `Adaptor`.
///
/// The buffer stores up to `window_size` elements as a ring: `window_offset`
/// is the physical slot of the logically-first element.  `uniquely_owned` is
/// true while no `Window` is outstanding; every operation that touches the
/// storage demands it, so a live window is exclusive.
///
/// The fixed-capacity ring is the buffer-maintenance strategy chosen here; a
/// naive shifting buffer or a capacity-amortized one would meet the same
/// `push`/`new_window` contracts at a different cost, since the contracts
/// speak only of the logical content.
pub struct Storage<T> {
    window_size: usize,
    window_offset: usize,
    uniquely_owned: bool,
    data: Vec<T>,
}

impl<T> Storage<T> {
    /// The fixed target window length.
    pub closed spec fn size(&self) -> nat {
        self.window_size as nat
    }

    /// The physical slot of the logically-first element.
    pub closed spec fn offset(&self) -> nat {
        self.window_offset as nat
    }

    /// True while no window is outstanding, so the buffer may be touched.
    pub closed spec fn is_available(&self) -> bool {
        self.uniquely_owned
    }

    /// The stored elements in physical order.
    pub closed spec fn raw(&self) -> Seq<T> {
        self.data@
    }

    /// The stored elements in logical order.
    pub closed spec fn content(&self) -> Seq<T> {
        rotated(self.data@, self.window_offset as int)
    }

    /// Well-formedness: never more than `window_size` elements; the offset is
    /// zero until the buffer is full, and always names a valid slot; a buffer
    /// whose window is out holds nothing.
    pub closed spec fn wf(&self) -> bool {
        &&& self.data@.len() <= self.window_size
        &&& (self.data@.len() < self.window_size ==> self.window_offset == 0)
        &&& (self.window_offset == 0 || self.window_offset < self.data@.len())
        &&& (!self.uniquely_owned ==> self.data@.len() == 0 && self.window_offset == 0)
    }

    /// A well-formed buffer never holds more than one window of elements.
    pub proof fn lemma_content_bounded(&self)
        requires
            self.wf(),
        ensures
            self.content().len() == self.raw().len(),
            self.content().len() <= self.size(),
    {
    }

    /// Create a new `Storage` with a given window size, allocating room for
    /// one full window up front.
    pub fn new(window_size: usize) -> (s: Storage<T>)
        ensures
            s.wf(),
            s.is_available(),
            s.size() == window_size,
            s.content() == Seq::<T>::empty(),
    {
        Storage::from_vec(Vec::with_capacity(window_size), window_size)
    }

    /// Create a new `Storage` with a given window size from an existing `Vec`,
    /// reusing its allocation.  Its prior contents are discarded.
    pub fn from_vec(vec: Vec<T>, window_size: usize) -> (s: Storage<T>)
        ensures
            s.wf(),
            s.is_available(),
            s.size() == window_size,
            s.content() == Seq::<T>::empty(),
    {
        let mut vec = vec;
        vec.clear();
        let s = Storage { window_size, window_offset: 0, uniquely_owned: true, data: vec };
        proof {
            assert(s.content() =~= Seq::<T>::empty());
        }
        s
    }

    /// The window size, at run time.
    pub fn window_size(&self) -> (n: usize)
        ensures
            n == self.size(),
    {
        self.window_size
    }

    /// Empty the logical content and reset the offset, keeping the
    /// allocation; used when a buffer is reused by a fresh `Adaptor`.
    pub(crate) fn clear(&mut self)
        requires
            old(self).wf(),
            old(self).is_available(),
        ensures
            final(self).wf(),
            final(self).is_available(),
            final(self).size() == old(self).size(),
            final(self).content() == Seq::<T>::empty(),
    {
        self.data.clear();
        self.window_offset = 0;
        proof {
            assert(final(self).content() =~= Seq::<T>::empty());
        }
    }

    /// Insert one element according to the ring layout: append while the
    /// buffer is filling, otherwise overwrite the logically-first slot and
    /// advance the offset.  Returns true once the buffer holds a full window.
    pub(crate) fn push(&mut self, elt: T) -> (full: bool)
        requires
            old(self).wf(),
            old(self).is_available(),
            old(self).size() > 0,
        ensures
            final(self).wf(),
            final(self).is_available(),
            final(self).size() == old(self).size(),
            final(self).content() == pushed(old(self).content(), elt, old(self).size()),
            full == (final(self).content().len() == old(self).size()),
    {
        proof {
            assert(old(self).content().len() == old(self).data@.len());
        }
        if self.data.len() < self.window_size {
            // still filling: the offset is zero, logical and physical order agree
            self.data.push(elt);
            proof {
                assert(final(self).content() =~= old(self).content().push(elt));
                assert(final(self).content().len() == final(self).data@.len());
            }
            self.data.len() == self.window_size
        } else {
            let off = self.window_offset;
            self.data[off] = elt;
            if off >= self.window_size - 1 {
                self.window_offset = 0;
            } else {
                self.window_offset = off + 1;
            }
            proof {
                lemma_rotated_overwrite(old(self).data@, off as int, elt);
                assert(final(self).content() == pushed(old(self).content(), elt, old(self).size()));
                assert(final(self).content().len() == old(self).size());
            }
            true
        }
    }

    /// Mint the outstanding window: move the buffer into a `Window` over the
    /// current logical content and mark the storage unavailable until the
    /// window is given back.
    pub(crate) fn new_window(&mut self) -> (w: Window<T>)
        requires
            old(self).wf(),
            old(self).is_available(),
            old(self).content().len() == old(self).size(),
        ensures
            w.wf(),
            w@ == old(self).content(),
            final(self).wf(),
            !final(self).is_available(),
            final(self).size() == old(self).size(),
            final(self).content() == Seq::<T>::empty(),
    {
        let mut data: Vec<T> = Vec::new();
        core::mem::swap(&mut data, &mut self.data);
        let off = self.window_offset;
        self.window_offset = 0;
        self.uniquely_owned = false;
        let w = Window::from_parts(data, off);
        proof {
            assert(final(self).content() =~= Seq::<T>::empty());
        }
        w
    }

    /// Take the buffer back from a released window and become available
    /// again; the logical content is whatever the window last held.
    pub(crate) fn restore(&mut self, w: Window<T>)
        requires
            old(self).wf(),
            !old(self).is_available(),
            w.wf(),
            w@.len() == old(self).size(),
        ensures
            final(self).wf(),
            final(self).is_available(),
            final(self).size() == old(self).size(),
            final(self).content() == w@,
    {
        let (data, window_offset) = w.into_parts();
        self.data = data;
        self.window_offset = window_offset;
        self.uniquely_owned = true;
    }

    /// Consume the buffer and return the backing storage for reuse.  The
    /// element order reflects the physical layout at the time of the call:
    /// the logical content is the returned vector rotated by the offset.
    pub fn into_vec(self) -> (v: Vec<T>)
        requires
            self.wf(),
            self.is_available(),
        ensures
            v@ == self.raw(),
            self.offset() <= v@.len(),
            self.content() == rotated(v@, self.offset() as int),
    {
        let Storage { window_size: _, window_offset: _, uniquely_owned: _, data } = self;
        data
    }
}

} // verus!
