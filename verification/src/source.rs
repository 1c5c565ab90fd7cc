//! The "pull next element / report remaining-count bounds" sequence shape
//! that the iteration engine consumes.

use vstd::prelude::*;

verus! {

/// An element sequence consumed by pulling.
///
/// `remaining()` is the mathematical sequence of elements still to be pulled.
/// The two estimate spec functions are the bounds the sequence reports of its
/// own remaining count: the lower bound never exceeds the true count, and an
/// upper bound, when one is reported, is never below it.
pub trait PullSource: Sized {
    /// The element type.
    type Item;

    /// The elements still to be pulled, in order.
    spec fn remaining(&self) -> Seq<Self::Item>;

    /// The reported lower bound of the remaining count.
    spec fn lower_estimate(&self) -> usize;

    /// The reported upper bound of the remaining count, if one is known.
    spec fn upper_estimate(&self) -> Option<usize>;

    /// Advance past and return the next element, or report exhaustion.
    fn pull_next(&mut self) -> (r: Option<Self::Item>)
        ensures
            old(self).remaining().len() == 0 ==> (r is None && final(self).remaining() == old(
                self,
            ).remaining()),
            old(self).remaining().len() > 0 ==> (r matches Some(e) && e == old(self).remaining()[0]
                && final(self).remaining() == old(self).remaining().drop_first()),
    ;

    /// Report `(lower, optional upper)` bounds on the remaining count.
    fn remaining_count_estimate(&self) -> (r: (usize, Option<usize>))
        ensures
            r.0 == self.lower_estimate(),
            r.1 == self.upper_estimate(),
            self.lower_estimate() <= self.remaining().len(),
            self.upper_estimate() matches Some(h) ==> self.remaining().len() <= h,
    ;
}

/// A `PullSource` over the elements of a `Vec`, pulled front to back.
///
/// The elements are held in reverse so that pulling pops from the back of the
/// vector and never shifts or clones an element.
pub struct VecSource<T> {
    stacked: Vec<T>,
    exact_upper: bool,
}

impl<T> VecSource<T> {
    /// A source that will yield the elements of `items` in order and reports
    /// exact remaining-count bounds.
    pub fn new(items: Vec<T>) -> (s: VecSource<T>)
        ensures
            s.remaining() == items@,
            s.lower_estimate() == items@.len(),
            s.upper_estimate() == Some(items@.len() as usize),
    {
        let ghost items0 = items@;
        let s = VecSource { stacked: reverse_vec(items), exact_upper: true };
        proof {
            assert(s.remaining() =~= items0);
        }
        s
    }

    /// Like `new`, but the source reports no upper bound on its remaining
    /// count, as an open-ended sequence would.
    pub fn without_upper_estimate(items: Vec<T>) -> (s: VecSource<T>)
        ensures
            s.remaining() == items@,
            s.lower_estimate() == items@.len(),
            s.upper_estimate() is None,
    {
        let ghost items0 = items@;
        let s = VecSource { stacked: reverse_vec(items), exact_upper: false };
        proof {
            assert(s.remaining() =~= items0);
        }
        s
    }
}

impl<T> PullSource for VecSource<T> {
    type Item = T;

    closed spec fn remaining(&self) -> Seq<T> {
        self.stacked@.reverse()
    }

    closed spec fn lower_estimate(&self) -> usize {
        self.stacked.len()
    }

    closed spec fn upper_estimate(&self) -> Option<usize> {
        if self.exact_upper {
            Some(self.stacked.len())
        } else {
            None
        }
    }

    fn pull_next(&mut self) -> (r: Option<T>) {
        let r = self.stacked.pop();
        proof {
            if old(self).remaining().len() > 0 {
                assert(final(self).remaining() =~= old(self).remaining().drop_first());
            } else {
                assert(final(self).remaining() =~= old(self).remaining());
            }
        }
        r
    }

    fn remaining_count_estimate(&self) -> (r: (usize, Option<usize>)) {
        let n = self.stacked.len();
        if self.exact_upper {
            (n, Some(n))
        } else {
            (n, None)
        }
    }
}

/// Reverse a `Vec` by popping each element, keeping ownership of them all.
fn reverse_vec<T>(items: Vec<T>) -> (r: Vec<T>)
    ensures
        r@ == items@.reverse(),
        r@.len() == items@.len(),
{
    let ghost items0 = items@;
    let mut items = items;
    let mut r: Vec<T> = Vec::with_capacity(items.len());
    proof {
        assert(items@ =~= items0.take(items@.len() as int));
        assert(items0.skip(items0.len() as int).reverse() =~= r@);
    }
    loop
        invariant
            items@.len() <= items0.len(),
            items@ == items0.take(items@.len() as int),
            r@ == items0.skip(items@.len() as int).reverse(),
        ensures
            items@.len() == 0,
            r@ == items0.skip(0).reverse(),
        decreases items@.len(),
    {
        match items.pop() {
            None => {
                break ;
            },
            Some(x) => {
                let ghost m = items@.len() as int + 1;
                r.push(x);
                proof {
                    assert(items@ =~= items0.take(m - 1));
                    assert(r@ =~= items0.skip(m - 1).reverse());
                }
            },
        }
    }
    proof {
        assert(items0.skip(0) =~= items0);
        assert(r@ =~= items0.reverse());
    }
    r
}

} // verus!
