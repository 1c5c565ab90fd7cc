//! Sliding windows over a pulled element sequence, without copying elements.
//!
//! A [`Storage`] owns one reusable backing buffer of `window_size` slots.
//! An [`Adaptor`] pulls elements from a [`PullSource`], feeds them into the
//! buffer, and, once the buffer holds a full window, hands out a [`Window`]:
//! an exclusive view of the buffer in logical order.  Because the buffer is
//! reused, at most one window may be outstanding at a time; the window must be
//! given back with [`Adaptor::release`] before the next one is produced.
//! Writes made through a window persist in the buffer and are observed by
//! later windows that still cover the written position.

use vstd::prelude::*;

mod adaptor;
mod laws;
mod source;
mod storage;
mod window;

pub use adaptor::{fed, needed, sliding_bound, Adaptor};
pub use laws::{
    lemma_degenerate_sizes, lemma_estimate_exact, lemma_first_window, lemma_mutation_observed,
    lemma_next_window, lemma_rotation_keeps_elements, lemma_run_window, lemma_window_count_exact,
    window_at, window_count, windows_of,
};
pub use source::{PullSource, VecSource};
pub use storage::{rotated, Storage};
pub use window::{Window, WindowIter, WindowIterMut};

verus! {

/// The adaptor entry point: any pull source can be turned into a sliding
/// window engine over a given backing buffer.
pub trait IterExt: PullSource {
    /// Wrap this sequence in a sliding window engine backed by `storage`,
    /// whose prior contents are discarded.
    fn sliding_windows(self, storage: Storage<Self::Item>) -> (a: Adaptor<Self>)
        requires
            storage.wf(),
            storage.is_available(),
        ensures
            a.wf(),
            !a.is_done(),
            a.view_available(),
            a.window_size() == storage.size(),
            a.remaining() == self.remaining(),
            a.lower_estimate() == self.lower_estimate(),
            a.upper_estimate() == self.upper_estimate(),
            a.content() == Seq::<Self::Item>::empty(),
    ;
}

impl<I: PullSource> IterExt for I {
    fn sliding_windows(self, storage: Storage<I::Item>) -> (a: Adaptor<I>) {
        Adaptor::new(self, storage)
    }
}

} // verus!
