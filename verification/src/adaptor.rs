//! The iteration engine: pull elements, feed the buffer, yield windows.

use vstd::prelude::*;

use crate::source::PullSource;
use crate::storage::{pushed, Storage};
use crate::window::Window;

verus! {

/// How many elements must still be pulled before the next window is full: the
/// missing part while the buffer of window size `s` is filling, one element
/// once it holds a full window.
pub open spec fn needed(content_len: nat, s: nat) -> nat {
    if content_len < s {
        (s - content_len) as nat
    } else {
        1
    }
}

/// The buffer content, of window size `s`, after the elements of `pulled`
/// were fed one by one into content `c`: the last `s` elements of `c +
/// pulled`, or all of them while they still fit.
pub open spec fn fed<T>(c: Seq<T>, pulled: Seq<T>, s: nat) -> Seq<T> {
    let all = c + pulled;
    if all.len() <= s {
        all
    } else {
        all.skip((all.len() - s) as int)
    }
}

/// The sliding estimate transformation: how many windows of size `s` a
/// sequence of `x` elements admits — except that a reported bound of fewer
/// than `s` elements, other than zero, is turned into 1, since the true count
/// may still exceed the reported lower bound (and an upper bound below `s` is
/// deliberately kept at 1 by the estimate's closed form).
pub open spec fn sliding_bound(x: nat, s: nat) -> nat {
    if x == 0 {
        0
    } else if x >= s {
        (x - s + 1) as nat
    } else {
        1
    }
}

/// Feeding one more element into a fed buffer is one more push.
proof fn lemma_fed_push<T>(c: Seq<T>, q: Seq<T>, e: T, s: nat)
    requires
        s >= 1,
    ensures
        fed(c, q.push(e), s) == pushed(fed(c, q, s), e, s),
{
    let all = c + q;
    let n = all.len() as int;
    assert(c + q.push(e) =~= all.push(e));
    if n < s {
        assert(fed(c, q.push(e), s) =~= pushed(fed(c, q, s), e, s));
    } else if n == s {
        assert forall|i: int| 0 <= i < n implies all.push(e).skip(1)[i] == all.drop_first().push(
            e,
        )[i] by {
            assert(all.push(e).skip(1)[i] == all.push(e)[i + 1]);
            if i < n - 1 {
                assert(all.drop_first().push(e)[i] == all[i + 1]);
            }
        };
        assert(all.push(e).skip(1) =~= all.drop_first().push(e));
    } else {
        let d = n - s;
        assert forall|i: int| 0 <= i < s implies all.push(e).skip(d + 1)[i] == all.skip(
            d,
        ).drop_first().push(e)[i] by {
            assert(all.push(e).skip(d + 1)[i] == all.push(e)[d + 1 + i]);
            if i < s - 1 {
                assert(all.skip(d).drop_first().push(e)[i] == all.skip(d)[i + 1]);
            }
        };
        assert(all.push(e).skip(d + 1) =~= all.skip(d).drop_first().push(e));
    }
}

/// The iteration engine.  It pulls elements from the input sequence, feeds
/// them into the backing buffer, and yields a `Window` whenever the buffer
/// holds a full one.  A partially filled trailing window is discarded, never
/// yielded.  Once the input is exhausted before a window could be completed,
/// the engine is finished for good.
pub struct Adaptor<I: PullSource> {
    iter: I,
    done: bool,
    storage: Storage<I::Item>,
}

impl<I: PullSource> Adaptor<I> {
    /// The window size of the underlying storage.
    pub closed spec fn window_size(&self) -> nat {
        self.storage.size()
    }

    /// The elements the input sequence will still yield.
    pub closed spec fn remaining(&self) -> Seq<I::Item> {
        self.iter.remaining()
    }

    /// The logical content of the underlying storage.
    pub closed spec fn content(&self) -> Seq<I::Item> {
        self.storage.content()
    }

    /// Whether the engine has exhausted its input for good.
    pub closed spec fn is_done(&self) -> bool {
        self.done
    }

    /// True while no window is outstanding, so the next one may be produced.
    pub closed spec fn view_available(&self) -> bool {
        self.storage.is_available()
    }

    /// The lower remaining-count bound the input sequence reports.
    pub closed spec fn lower_estimate(&self) -> usize {
        self.iter.lower_estimate()
    }

    /// The upper remaining-count bound the input sequence reports, if any.
    pub closed spec fn upper_estimate(&self) -> Option<usize> {
        self.iter.upper_estimate()
    }

    /// Well-formedness: the storage is well-formed, and a finished engine has
    /// truly exhausted its input.
    pub closed spec fn wf(&self) -> bool {
        &&& self.storage.wf()
        &&& (self.done ==> self.iter.remaining().len() == 0)
    }

    /// Create a new engine over an input sequence and a backing buffer.  The
    /// buffer is cleared, so a previously used one may be handed in: no stale
    /// element of an earlier run ever reaches a window of this run.
    pub fn new(iter: I, storage: Storage<I::Item>) -> (a: Adaptor<I>)
        requires
            storage.wf(),
            storage.is_available(),
        ensures
            a.wf(),
            !a.is_done(),
            a.view_available(),
            a.window_size() == storage.size(),
            a.remaining() == iter.remaining(),
            a.lower_estimate() == iter.lower_estimate(),
            a.upper_estimate() == iter.upper_estimate(),
            a.content() == Seq::<I::Item>::empty(),
    {
        let mut storage = storage;
        storage.clear();
        Adaptor { iter, done: false, storage }
    }

    /// Produce the next window, or report that none can be produced.
    ///
    /// A finished engine, and one with window size zero, produces nothing and
    /// stays as it is.  Otherwise let `k` be the number of elements still
    /// `needed` to complete a window.  When the input holds at least `k` more
    /// elements, exactly those are pulled and the produced window is the
    /// buffer `fed` with them: the most recent `window_size` elements.  When
    /// it holds fewer, everything left is pulled into the buffer, discarded
    /// rather than yielded, and the engine is finished for good.
    ///
    /// The produced window must be given back with `release` before the next
    /// call; calling while a window is outstanding is the reentrancy
    /// violation that the precondition rules out.
    #[verifier::loop_isolation(false)]
    pub fn next(&mut self) -> (r: Option<Window<I::Item>>)
        requires
            old(self).wf(),
            old(self).view_available(),
        ensures
            final(self).wf(),
            final(self).window_size() == old(self).window_size(),
            (old(self).is_done() || old(self).window_size() == 0) ==> (r is None && *final(self)
                == *old(self)),
            (!old(self).is_done() && old(self).window_size() > 0) ==> ({
                let s = old(self).window_size();
                let c = old(self).content();
                let rem = old(self).remaining();
                let k = needed(c.len(), s);
                &&& (rem.len() >= k ==> (r matches Some(w) && {
                    &&& w.wf()
                    &&& w@ == fed(c, rem.take(k as int), s)
                    &&& w@.len() == s
                    &&& !final(self).is_done()
                    &&& !final(self).view_available()
                    &&& final(self).remaining() == rem.skip(k as int)
                    &&& final(self).content().len() == 0
                }))
                &&& (rem.len() < k ==> {
                    &&& r is None
                    &&& final(self).is_done()
                    &&& final(self).view_available()
                    &&& final(self).remaining().len() == 0
                    &&& final(self).content() == fed(c, rem, s)
                })
            }),
    {
        if self.done {
            return None;
        }
        let ws = self.storage.window_size();
        if ws == 0 {
            return None;
        }
        proof {
            self.storage.lemma_content_bounded();
        }
        let ghost s = self.storage.size();
        let ghost c0 = self.storage.content();
        let ghost rem0 = self.iter.remaining();
        let ghost mut npulled: int = 0;
        loop
            invariant
                self.storage.wf(),
                self.storage.is_available(),
                self.storage.size() == s,
                self.done == false,
                0 <= npulled <= rem0.len(),
                self.iter.remaining() == rem0.skip(npulled),
                self.storage.content() == fed(c0, rem0.take(npulled), s),
                npulled > 0 ==> self.storage.content().len() < s,
            decreases rem0.len() - npulled,
        {
            match self.iter.pull_next() {
                None => {
                    proof {
                        assert(rem0.skip(npulled).len() == 0);
                        assert(npulled == rem0.len());
                        assert(rem0.take(npulled) =~= rem0);
                        // too few elements were left: the needed count was out
                        // of the input's reach
                        if npulled > 0 {
                            assert(c0.len() + rem0.len() < s);
                        }
                        assert(rem0.len() < needed(c0.len(), s));
                    }
                    self.done = true;
                    return None;
                },
                Some(elt) => {
                    proof {
                        assert(elt == rem0[npulled]);
                        assert(rem0.skip(npulled).drop_first() =~= rem0.skip(npulled + 1));
                        assert(rem0.take(npulled).push(elt) =~= rem0.take(npulled + 1));
                        lemma_fed_push(c0, rem0.take(npulled), elt, s);
                    }
                    let full = self.storage.push(elt);
                    proof {
                        npulled = npulled + 1;
                    }
                    if full {
                        proof {
                            // exactly the needed number of elements was pulled
                            assert(c0.len() + npulled >= s);
                            assert(npulled == needed(c0.len(), s));
                        }
                        let w = self.storage.new_window();
                        return Some(w);
                    }
                },
            }
        }
    }

    /// Give a produced window back, ending its exclusive claim: the buffer
    /// takes back whatever the window now holds — writes made through the
    /// window included — and the next window may be produced.
    pub fn release(&mut self, window: Window<I::Item>)
        requires
            old(self).wf(),
            !old(self).view_available(),
            window.wf(),
            window@.len() == old(self).window_size(),
        ensures
            final(self).wf(),
            final(self).view_available(),
            final(self).window_size() == old(self).window_size(),
            final(self).remaining() == old(self).remaining(),
            final(self).is_done() == old(self).is_done(),
            final(self).content() == window@,
    {
        self.storage.restore(window);
    }

    /// The engine's own remaining-count estimate: the input's estimate put
    /// through the sliding transformation, bound by bound; `(0, None)` for
    /// window size zero.
    pub fn size_hint(&self) -> (r: (usize, Option<usize>))
        ensures
            self.window_size() == 0 ==> r == (0usize, None::<usize>),
            self.window_size() > 0 ==> {
                &&& r.0 == sliding_bound(self.lower_estimate() as nat, self.window_size())
                &&& (self.upper_estimate() is None ==> r.1 is None)
                &&& (self.upper_estimate() matches Some(h) ==> r.1 == Some(
                    sliding_bound(h as nat, self.window_size()) as usize,
                ))
            },
    {
        let size = self.storage.window_size();
        let (lower, upper) = self.iter.remaining_count_estimate();
        if size == 0 {
            return (0, None);
        }
        let lo = if lower == 0 {
            0
        } else if lower >= size {
            lower - size + 1
        } else {
            1
        };
        let up = match upper {
            None => None,
            Some(x) => Some(
                if x == 0 {
                    0
                } else if x >= size {
                    x - size + 1
                } else {
                    1
                },
            ),
        };
        (lo, up)
    }

    /// Take the backing buffer back out of the engine, for reuse by a later
    /// engine or through `Storage::into_vec`.
    pub fn into_storage(self) -> (s: Storage<I::Item>)
        requires
            self.wf(),
            self.view_available(),
        ensures
            s.wf(),
            s.is_available(),
            s.size() == self.window_size(),
            s.content() == self.content(),
    {
        let Adaptor { iter: _, done: _, storage } = self;
        storage
    }
}

} // verus!
