use iterator2d::Enumerate2d;
use iterator2d::Enumerate2dExt;
use iterator2d::Iter;
use iterator2d::IterMut;
use iterator2d::Iterator2d;

fn collection() -> [i32; 9] {
    [1, 2, 3, 4, 5, 6, 7, 8, 9]
}

#[test]
fn iteration_enumerated() {
    let data: [i32; 9] = collection();
    let mut it = Iter::new(&data, 3, 3).enumerate2d();
    assert_eq!(it.skip(1).unwrap(), (0, 1, 2));
    assert_eq!(it.skip(3).unwrap(), (1, 2, 6));
    assert_eq!(it.produce_next().unwrap(), (2, 0, 7));
}

#[test]
fn iteration_mutable_enumerated() {
    let values: Vec<i32> = vec![1, 2, 3, 4, 5, 6, 7, 8, 9];
    let mut it = IterMut::new(values, 3, 3).enumerate2d();
    loop {
        match it.produce_next() {
            Some((i, j, el)) => {
                let m: i32 = i as i32;
                let n: i32 = j as i32;
                it.set_last(el + m + n);
            },
            None => break,
        }
    }
    let mutated: Vec<i32> = it.into_inner().into_data();

    let mut it2 = IterMut::new(mutated, 3, 3).enumerate2d();
    assert_eq!(it2.skip(1).unwrap(), (0, 1, 3));
    assert_eq!(it2.skip(3).unwrap(), (1, 2, 9));
    assert_eq!(it2.produce_next().unwrap(), (2, 0, 9));
}

#[test]
fn sequential_production_in_order() {
    let data: [i32; 9] = collection();
    let mut it = Iter::new(&data, 3, 3).enumerate2d();
    let expected: [(usize, usize, i32); 9] = [
        (0, 0, 1),
        (0, 1, 2),
        (0, 2, 3),
        (1, 0, 4),
        (1, 1, 5),
        (1, 2, 6),
        (2, 0, 7),
        (2, 1, 8),
        (2, 2, 9),
    ];
    for want in expected.iter() {
        assert_eq!(it.produce_next().unwrap(), *want);
    }
    assert_eq!(it.produce_next(), None);
}

#[test]
fn skip_agrees_with_sequential_production() {
    let data: [i32; 9] = collection();
    for n in 0..9usize {
        let mut skipping = Iter::new(&data, 3, 3).enumerate2d();
        let mut stepping = Iter::new(&data, 3, 3).enumerate2d();
        let skipped: (usize, usize, i32) = skipping.skip(n).unwrap();
        let mut stepped: (usize, usize, i32) = stepping.produce_next().unwrap();
        for _ in 0..n {
            stepped = stepping.produce_next().unwrap();
        }
        assert_eq!(skipped, stepped);
        assert_eq!(skipping.produce_next(), stepping.produce_next());
    }
}

#[test]
fn skip_coordinates_are_those_of_the_produced_element() {
    let data: [i32; 9] = collection();
    let mut it = Iter::new(&data, 3, 3).enumerate2d();
    assert_eq!(it.skip(4).unwrap(), (1, 1, 5));
    assert_eq!(it.produce_next().unwrap(), (1, 2, 6));
}

#[test]
fn exhaustion_is_idempotent() {
    let data: [i32; 4] = [1, 2, 3, 4];
    let mut it = Iter::new(&data, 2, 2).enumerate2d();
    while it.produce_next().is_some() {}
    assert_eq!(it.produce_next(), None);
    assert_eq!(it.produce_next(), None);
    assert_eq!(it.skip(0), None);
}

#[test]
fn skip_past_the_end_drains() {
    let data: [i32; 4] = [1, 2, 3, 4];
    let mut it = Iter::new(&data, 2, 2).enumerate2d();
    assert_eq!(it.produce_next().unwrap(), (0, 0, 1));
    assert_eq!(it.skip(5), None);
    assert_eq!(it.produce_next(), None);
    let (lower, upper): (usize, Option<usize>) = it.remaining_count_hint();
    assert_eq!(lower, 0);
    assert_eq!(upper, Some(0));
}

#[test]
fn empty_sequence_is_immediately_exhausted() {
    let data: [i32; 0] = [];
    let mut it = Iter::new(&data, 0, 3).enumerate2d();
    assert_eq!(it.produce_next(), None);

    let mut it2 = Iter::new(&data, 0, 0).enumerate2d();
    assert_eq!(it2.produce_next(), None);
    assert_eq!(it2.skip(2), None);
}

#[test]
fn rows_and_cols_report_construction_values() {
    let data: [i32; 6] = [1, 2, 3, 4, 5, 6];
    let it: Iter<i32> = Iter::new(&data, 2, 3);
    assert_eq!(it.rows(), 2);
    assert_eq!(it.cols(), 3);
    let values: Vec<i32> = vec![1, 2, 3, 4, 5, 6];
    let im: IterMut<i32> = IterMut::new(values, 3, 2);
    assert_eq!(im.rows(), 3);
    assert_eq!(im.cols(), 2);
}

#[test]
fn hint_and_count_track_what_remains() {
    let data: [i32; 6] = [1, 2, 3, 4, 5, 6];
    let mut it = Iter::new(&data, 2, 3).enumerate2d();
    let (lower, upper): (usize, Option<usize>) = it.remaining_count_hint();
    assert_eq!(lower, 6);
    assert_eq!(upper, Some(6));
    it.produce_next();
    it.produce_next();
    let (lower2, upper2): (usize, Option<usize>) = it.remaining_count_hint();
    assert_eq!(lower2, 4);
    assert_eq!(upper2, Some(4));
    assert_eq!(it.consume_count(), 4);
}

#[test]
fn set_last_replaces_only_the_produced_element() {
    let values: Vec<i32> = vec![10, 20, 30, 40];
    let mut it = IterMut::new(values, 2, 2).enumerate2d();
    let (i, j, el): (usize, usize, i32) = it.produce_next().unwrap();
    assert_eq!((i, j, el), (0, 0, 10));
    it.set_last(-5);
    assert_eq!(it.produce_next().unwrap(), (0, 1, 20));
    let out: Vec<i32> = it.into_inner().into_data();
    assert_eq!(out, vec![-5, 20, 30, 40]);
}

#[test]
fn decorating_a_partly_consumed_traversal_counts_from_zero() {
    let data: [i32; 6] = [1, 2, 3, 4, 5, 6];
    let mut plain: Iter<i32> = Iter::new(&data, 2, 3);
    assert_eq!(plain.produce_next(), Some(1));
    assert_eq!(plain.skip(1), Some(3));
    let mut it = plain.enumerate2d();
    assert_eq!(it.produce_next().unwrap(), (0, 0, 4));
    assert_eq!(it.produce_next().unwrap(), (0, 1, 5));
    assert_eq!(it.consume_count(), 1);
}

#[test]
fn mutable_traversal_after_skip_resumes_correctly() {
    let values: Vec<i32> = vec![1, 2, 3, 4, 5, 6, 7, 8, 9];
    let mut it: Enumerate2d<IterMut<i32>> = IterMut::new(values, 3, 3).enumerate2d();
    assert_eq!(it.skip(6).unwrap(), (2, 0, 7));
    it.set_last(70);
    assert_eq!(it.produce_next().unwrap(), (2, 1, 8));
    let out: Vec<i32> = it.into_inner().into_data();
    assert_eq!(out, vec![1, 2, 3, 4, 5, 6, 70, 8, 9]);
}
