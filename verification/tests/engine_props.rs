use sliding_windows::{Adaptor, IterExt, Storage, VecSource, Window};

fn source_of(items: &[u32]) -> VecSource<u32> {
    VecSource::new(items.to_vec())
}

fn collect_window(window: &Window<u32>) -> Vec<u32> {
    let mut row: Vec<u32> = Vec::new();
    let mut it = window.iter();
    while let Some(x) = it.next(window) {
        row.push(*x);
    }
    row
}

#[test]
fn end_to_end_windows_in_order() {
    let storage: Storage<u32> = Storage::new(3);
    let mut engine = Adaptor::new(source_of(&[0, 1, 2, 3, 4]), storage);

    let w1 = engine.next().unwrap();
    assert!(w1.eq_slice(&[0, 1, 2]));
    engine.release(w1);

    let w2 = engine.next().unwrap();
    assert!(w2.eq_slice(&[1, 2, 3]));
    engine.release(w2);

    let w3 = engine.next().unwrap();
    assert!(w3.eq_slice(&[2, 3, 4]));
    engine.release(w3);

    assert!(engine.next().is_none());
    assert!(engine.next().is_none());
}

#[test]
fn yields_exactly_n_minus_s_plus_1() {
    for n in 1usize..8 {
        for s in 1usize..=n {
            let items: Vec<u32> = (0..n as u32).collect();
            let storage: Storage<u32> = Storage::new(s);
            let mut engine = Adaptor::new(VecSource::new(items.clone()), storage);
            let mut count = 0usize;
            let mut i = 0usize;
            while let Some(w) = engine.next() {
                assert!(w.eq_slice(&items[i..i + s]));
                count += 1;
                i += 1;
                engine.release(w);
            }
            assert_eq!(count, n - s + 1);
        }
    }
}

#[test]
fn window_larger_than_input_yields_nothing() {
    let storage: Storage<u32> = Storage::new(6);
    let mut engine = Adaptor::new(source_of(&[0, 1, 2, 3, 4]), storage);
    assert!(engine.next().is_none());
    assert!(engine.next().is_none());

    let storage: Storage<u32> = Storage::new(1);
    let mut engine = Adaptor::new(source_of(&[]), storage);
    assert!(engine.next().is_none());
}

#[test]
fn mutation_is_seen_by_later_windows_and_raw_storage() {
    let storage: Storage<u32> = Storage::new(3);
    let mut engine = Adaptor::new(source_of(&[0, 1, 2, 3, 4]), storage);

    let mut w1 = engine.next().unwrap();
    assert!(w1.eq_slice(&[0, 1, 2]));
    *w1.get_mut(1) = 42;
    assert!(w1.eq_slice(&[0, 42, 2]));
    engine.release(w1);

    // the write at logical position 1 stands at position 0 one slide later
    let w2 = engine.next().unwrap();
    assert!(w2.eq_slice(&[42, 2, 3]));
    engine.release(w2);

    // two slides later the written slot has left the window
    let mut w3 = engine.next().unwrap();
    assert!(w3.eq_slice(&[2, 3, 4]));
    *w3.get_mut(0) = 99;
    engine.release(w3);
    assert!(engine.next().is_none());

    // the final raw storage reflects the physical ring layout, mutation included:
    // logically [99, 3, 4] with the logical start at physical slot 2
    let raw: Vec<u32> = engine.into_storage().into_vec();
    assert_eq!(raw, vec![3, 4, 99]);
}

#[test]
fn window_is_produced_again_after_release() {
    let storage: Storage<u32> = Storage::new(2);
    let mut engine = Adaptor::new(source_of(&[5, 6, 7]), storage);
    let w1 = engine.next().unwrap();
    engine.release(w1);
    // a released window frees the buffer: the next request succeeds
    let w2 = engine.next().unwrap();
    assert!(w2.eq_slice(&[6, 7]));
    engine.release(w2);
}

#[test]
fn reused_buffer_holds_no_stale_elements() {
    let storage: Storage<u32> = Storage::new(2);
    let mut first = Adaptor::new(source_of(&[1, 2, 3]), storage);
    while let Some(w) = first.next() {
        first.release(w);
    }
    let storage = first.into_storage();

    let mut second = Adaptor::new(source_of(&[7, 8, 9]), storage);
    let w = second.next().unwrap();
    assert!(w.eq_slice(&[7, 8]));
    second.release(w);

    // a buffer reused straight from a vector is cleared the same way
    let storage: Storage<u32> = Storage::from_vec(vec![100, 100, 100, 100], 2);
    let mut third = Adaptor::new(source_of(&[4, 5]), storage);
    let w = third.next().unwrap();
    assert!(w.eq_slice(&[4, 5]));
    third.release(w);
}

#[test]
fn size_hint_follows_the_closed_form() {
    // exact estimate (5, Some(5)) under various window sizes
    let cases: &[(usize, (usize, Option<usize>))] = &[
        (3, (3, Some(3))),
        (5, (1, Some(1))),
        (6, (1, Some(1))),
    ];
    for &(s, expected) in cases {
        let storage: Storage<u32> = Storage::new(s);
        let engine = Adaptor::new(source_of(&[0, 1, 2, 3, 4]), storage);
        assert_eq!(engine.size_hint(), expected);
    }

    // empty input: estimate (0, Some(0)) for any positive window size
    let storage: Storage<u32> = Storage::new(4);
    let engine = Adaptor::new(source_of(&[]), storage);
    assert_eq!(engine.size_hint(), (0, Some(0)));

    // no upper bound reported: the lower bound follows the formula, the
    // upper stays unknown
    let storage: Storage<u32> = Storage::new(3);
    let engine = Adaptor::new(
        VecSource::without_upper_estimate(vec![0, 1, 2, 3, 4]),
        storage,
    );
    assert_eq!(engine.size_hint(), (3, None));

    // window size zero: (0, None) on every input
    let storage: Storage<u32> = Storage::new(0);
    let engine = Adaptor::new(source_of(&[0, 1, 2]), storage);
    assert_eq!(engine.size_hint(), (0, None));
}

#[test]
fn storage_reports_its_window_size() {
    let st: Storage<u32> = Storage::new(5);
    assert_eq!(st.window_size(), 5);
    let st: Storage<u32> = Storage::from_vec(vec![1, 2, 3], 0);
    assert_eq!(st.window_size(), 0);
}

#[test]
fn eq_slice_is_length_sensitive() {
    let storage: Storage<u32> = Storage::new(3);
    let mut engine = Adaptor::new(source_of(&[0, 1, 2]), storage);
    let w = engine.next().unwrap();
    assert!(w.eq_slice(&[0, 1, 2]));
    assert!(!w.eq_slice(&[0, 1]));
    assert!(!w.eq_slice(&[0, 1, 2, 3]));
    assert!(!w.eq_slice(&[0, 1, 3]));
    assert_eq!(w.len(), 3);
    assert_eq!(*w.get(2), 2);
    engine.release(w);
}

#[test]
fn iteration_is_restartable_and_in_logical_order() {
    let storage: Storage<u32> = Storage::new(2);
    let mut engine = Adaptor::new(source_of(&[10, 20, 30]), storage);
    let w1 = engine.next().unwrap();
    engine.release(w1);
    // the second window sits rotated in the ring; iteration is logical
    let w2 = engine.next().unwrap();
    assert_eq!(collect_window(&w2), vec![20, 30]);
    assert_eq!(collect_window(&w2), vec![20, 30]);
    engine.release(w2);
}

#[test]
fn sliding_windows_entry_point() {
    let storage: Storage<u32> = Storage::new(2);
    let mut engine = source_of(&[1, 2, 3]).sliding_windows(storage);
    let w = engine.next().unwrap();
    assert!(w.eq_slice(&[1, 2]));
    engine.release(w);
}

#[test]
fn mutable_iteration_walks_every_position() {
    let storage: Storage<u32> = Storage::new(3);
    let mut engine = Adaptor::new(source_of(&[1, 2, 3]), storage);
    let mut w = engine.next().unwrap();
    let mut it = w.iter_mut();
    while let Some(x) = it.next(&mut w) {
        *x += 10;
    }
    assert!(w.eq_slice(&[11, 12, 13]));
    let mut it2 = w.iter_mut();
    assert_eq!(*it2.next(&mut w).unwrap(), 11);
    engine.release(w);
}
