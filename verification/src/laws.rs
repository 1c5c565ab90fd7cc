//! The windowing laws: what a full engine run over a given input yields.
//!
//! `Adaptor::next` speaks of one production step — `needed` elements pulled,
//! the buffer `fed` with them.  The lemmas here tie those steps together:
//! a run over `input` with window size `s` starts from a cleared buffer,
//! produces `window_at(input, s, 0)` first, then slides one element at a
//! time through `window_at(input, s, i)` for every `i` up to
//! `window_count(input.len(), s) - 1`, and produces nothing at all for the
//! degenerate sizes.

use vstd::prelude::*;

use crate::adaptor::{fed, needed, sliding_bound};
use crate::storage::{lemma_rotated_index, physical_of, rotated};

verus! {

/// Window `i` of `input` under window size `s`: the elements
/// `input[i .. i + s]`.
pub open spec fn window_at<T>(input: Seq<T>, s: nat, i: int) -> Seq<T> {
    input.subrange(i, i + s)
}

/// How many windows of size `s` an input of length `n` admits: `n - s + 1`
/// when `1 <= s <= n`, and none when `s` is zero or exceeds the input.
pub open spec fn window_count(n: nat, s: nat) -> nat {
    if s == 0 || s > n {
        0
    } else {
        (n - s + 1) as nat
    }
}

/// All windows of `input` under window size `s`, in production order.
pub open spec fn windows_of<T>(input: Seq<T>, s: nat) -> Seq<Seq<T>> {
    Seq::new(window_count(input.len(), s), |i: int| window_at(input, s, i))
}

/// An engine over an input of length `n` with window size `s`,
/// `1 <= s <= n`, yields exactly `n - s + 1` windows.
pub proof fn lemma_window_count_exact(n: nat, s: nat)
    requires
        1 <= s <= n,
    ensures
        window_count(n, s) == n - s + 1,
{
}

/// The first production step: a fresh (cleared) buffer holds nothing, so the
/// engine pulls exactly the first `s` input elements, and the window it
/// yields is `input[0 .. s]` — no element from before the run can appear.
pub proof fn lemma_first_window<T>(input: Seq<T>, s: nat)
    requires
        1 <= s <= input.len(),
    ensures
        needed(0, s) == s,
        fed(Seq::<T>::empty(), input.take(s as int), s) == windows_of(input, s)[0],
{
    assert(fed(Seq::<T>::empty(), input.take(s as int), s) =~= window_at(input, s, 0));
}

/// The sliding step: when the buffer holds window `i` and the source stands
/// right after it, the engine pulls one element and yields window `i + 1`.
pub proof fn lemma_next_window<T>(input: Seq<T>, s: nat, i: int)
    requires
        1 <= s,
        0 <= i,
        i + s < input.len(),
    ensures
        needed(s, s) == 1,
        fed(windows_of(input, s)[i], input.skip(i + s).take(1), s) == windows_of(input, s)[i + 1],
{
    assert(fed(window_at(input, s, i), input.skip(i + s).take(1), s) =~= window_at(
        input,
        s,
        i + 1,
    ));
}

/// The degenerate sizes: window size zero, or one larger than the whole
/// input, admits no window — in the latter case even the complete input
/// holds fewer elements than the first window `needed`.
pub proof fn lemma_degenerate_sizes<T>(input: Seq<T>, s: nat)
    requires
        s == 0 || s > input.len(),
    ensures
        windows_of(input, s).len() == 0,
        s > input.len() ==> input.len() < needed(0, s),
{
}

/// The whole run at once: feeding the first `i + s` input elements into an
/// initially empty buffer leaves exactly window `i` in it — so window `i`,
/// at the time of its production and before any in-place mutation, equals
/// `input[i .. i + s]`.
pub proof fn lemma_run_window<T>(input: Seq<T>, s: nat, i: int)
    requires
        1 <= s,
        0 <= i,
        i + s <= input.len(),
    ensures
        fed(Seq::<T>::empty(), input.take(i + s), s) == window_at(input, s, i),
{
    assert(fed(Seq::<T>::empty(), input.take(i + s), s) =~= window_at(input, s, i));
}

/// A write at logical position `k` of a window is observed by every
/// following window whose range still covers the written slot: after `j`
/// further elements were fed, `j <= k`, the written value stands at logical
/// position `k - j`.
pub proof fn lemma_mutation_observed<T>(w: Seq<T>, k: int, v: T, pulled: Seq<T>, s: nat)
    requires
        w.len() == s,
        s >= 1,
        0 <= k < s,
        pulled.len() <= k,
    ensures
        fed(w.update(k, v), pulled, s)[k - pulled.len()] == v,
{
    let wu = w.update(k, v);
    let all = wu + pulled;
    let p = pulled.len() as int;
    if p == 0 {
        assert(all =~= wu);
    } else {
        assert(fed(wu, pulled, s)[k - p] == all[k]);
    }
}

/// Rotation keeps exactly the elements: a value stands in the logical
/// content if and only if it stands in the raw (physical) storage — so a
/// write that reached the buffer is reflected in what `Storage::into_vec`
/// hands back.
pub proof fn lemma_rotation_keeps_elements<T>(s: Seq<T>, off: int, x: T)
    requires
        0 <= off <= s.len(),
    ensures
        rotated(s, off).contains(x) <==> s.contains(x),
{
    let n = s.len() as int;
    let r = rotated(s, off);
    if r.contains(x) {
        let j = choose|j: int| 0 <= j < n && r[j] == x;
        lemma_rotated_index(s, off, j);
        assert(0 <= physical_of(n, off, j) < n);
        assert(s[physical_of(n, off, j)] == x);
    }
    if s.contains(x) {
        let p = choose|p: int| 0 <= p < n && s[p] == x;
        let j = if p >= off {
            p - off
        } else {
            p + (n - off)
        };
        lemma_rotated_index(s, off, j);
        assert(physical_of(n, off, j) == p);
        assert(r[j] == x);
    }
}

/// For an exact input estimate no smaller than the window size, the sliding
/// estimate is the exact window count.
pub proof fn lemma_estimate_exact(n: nat, s: nat)
    requires
        1 <= s <= n,
    ensures
        sliding_bound(n, s) == window_count(n, s),
{
}

} // verus!
