use sliding_windows::{Adaptor, Storage, VecSource};

fn range_source(start: u32, end: u32) -> VecSource<u32> {
    let mut v: Vec<u32> = Vec::new();
    let mut i = start;
    while i < end {
        v.push(i);
        i += 1;
    }
    VecSource::new(v)
}

fn test_window_correctness_with_storage(storage: Storage<u32>) {
    let expected: &[&[u32]] = &[&[0, 1, 2], &[1, 2, 3], &[2, 3, 4]];

    let mut windowed_iter = Adaptor::new(range_source(0, 5), storage);
    let mut output: Vec<Vec<u32>> = Vec::new();
    while let Some(window) = windowed_iter.next() {
        let mut row: Vec<u32> = Vec::new();
        let mut it = window.iter();
        while let Some(x) = it.next(&window) {
            row.push(*x);
        }
        output.push(row);
        windowed_iter.release(window);
    }
    assert_eq!(output, expected);
}

#[test]
fn sliding_windows_1() {
    let middle_alloc: Storage<u32> = Storage::new(3);
    let small_alloc: Storage<u32> = Storage::from_vec(vec![1u32; 1], 3);
    let exact_alloc: Storage<u32> = Storage::from_vec(vec![1u32; 3], 3);
    let big_alloc: Storage<u32> = Storage::from_vec(vec![1u32, 100], 3);

    test_window_correctness_with_storage(middle_alloc);
    test_window_correctness_with_storage(small_alloc);
    test_window_correctness_with_storage(exact_alloc);
    test_window_correctness_with_storage(big_alloc);
}

#[test]
fn sliding_windows_2() {
    let it = range_source(0, 5);
    let storage: Storage<u32> = Storage::new(3);
    let mut windowed_iter = Adaptor::new(it, storage);

    while let Some(mut window) = windowed_iter.next() {
        let mut iter_mut = window.iter_mut();
        let element_0 = *iter_mut.next(&mut window).unwrap();
        let element_1 = iter_mut.next(&mut window).unwrap();
        *element_1 = 0u32;
        assert_eq!(element_0, 0);
        windowed_iter.release(window);
    }
}

#[test]
fn sliding_windows_4() {
    let storage1: Storage<u32> = Storage::new(3);
    let iter1 = Adaptor::new(range_source(0, 5), storage1);

    let storage2: Storage<u32> = Storage::new(5);
    let iter2 = Adaptor::new(range_source(0, 5), storage2);

    let storage3: Storage<u32> = Storage::new(6);
    let iter3 = Adaptor::new(range_source(0, 5), storage3);

    let storage4: Storage<u32> = Storage::new(6);
    let iter4 = Adaptor::new(range_source(42, 42), storage4);

    let storage5: Storage<u32> = Storage::new(6);
    let iter5 = Adaptor::new(VecSource::without_upper_estimate(vec![42u32]), storage5);

    assert_eq!(iter1.size_hint(), (3, Some(3)));
    assert_eq!(iter2.size_hint(), (1, Some(1)));
    assert_eq!(iter3.size_hint(), (1, Some(1)));
    assert_eq!(iter4.size_hint(), (0, Some(0)));
    assert_eq!(iter5.size_hint().1, None);
}

#[test]
fn sliding_windows_5() {
    let range = range_source(0, 5);
    let storage: Storage<u32> = Storage::new(0);
    let mut iter = Adaptor::new(range, storage);

    assert!(iter.next().is_none());
    assert!(iter.next().is_none());
}

#[test]
fn sliding_windows_6() {
    let storage0: Storage<u32> = Storage::new(0);
    let storage0: Vec<u32> = storage0.into_vec();
    assert_eq!(storage0.capacity(), 0);

    let storage1: Storage<u32> = Storage::new(12);
    let storage1: Vec<u32> = storage1.into_vec();
    assert_eq!(storage1.capacity(), 12);

    let storage2: Storage<u32> = Storage::new(20);
    let storage2: Vec<u32> = storage2.into_vec();
    assert_eq!(storage2.capacity(), 20);
}
