use ordered_iter::{
    EntryIterator, KeyIterator, OrderedMapIterator, OrderedSetIterator, PeekableEntries,
    VecMapIterator, VecSetIterator,
};

#[test]
fn set_join_keys_are_the_common_keys_in_order() {
    let mut joined = VecSetIterator::new(vec![-5, 0, 3, 4, 9, 11])
        .inner_join_set(VecSetIterator::new(vec![-7, -5, 1, 4, 10, 11, 12]));
    let mut out: Vec<i64> = Vec::new();
    while let Some(k) = joined.next() {
        out.push(k);
    }
    assert_eq!(vec![-5, 4, 11], out);
}

#[test]
fn set_join_with_extreme_keys() {
    let mut joined = VecSetIterator::new(vec![i64::MIN, 0, i64::MAX])
        .inner_join_set(VecSetIterator::new(vec![i64::MIN, i64::MAX]));
    assert_eq!(Some(i64::MIN), joined.next());
    assert_eq!(Some(i64::MAX), joined.next());
    assert_eq!(None, joined.next());
}

#[test]
fn join_with_an_empty_side_is_empty() {
    let mut left_empty = VecSetIterator::new(vec![]).inner_join_set(VecSetIterator::new(vec![1, 2]));
    assert_eq!(None, left_empty.next());
    let mut right_empty = VecSetIterator::new(vec![1, 2]).inner_join_set(VecSetIterator::new(vec![]));
    assert_eq!(None, right_empty.next());
    let mut maps = VecMapIterator::new(vec![(1, 'a')]).inner_join_map(VecMapIterator::<u8>::new(vec![]));
    assert_eq!(None, maps.next());
    let mut outer = VecMapIterator::<u8>::new(vec![]).outer_join(VecMapIterator::<u8>::new(vec![]));
    assert_eq!(None, outer.next());
}

#[test]
fn exhausted_joins_stay_exhausted() {
    let mut sets = VecSetIterator::new(vec![1, 2, 3]).inner_join_set(VecSetIterator::new(vec![2, 5]));
    assert_eq!(Some(2), sets.next());
    for _ in 0..3 {
        assert_eq!(None, sets.next());
    }

    let mut maps = VecMapIterator::new(vec![(1, 'a'), (2, 'b')])
        .inner_join_map(VecMapIterator::new(vec![(2, 20), (3, 30)]));
    assert_eq!(Some((2, ('b', 20))), maps.next());
    for _ in 0..3 {
        assert_eq!(None, maps.next());
    }

    let mut filtered = VecMapIterator::new(vec![(1, 'a'), (2, 'b')])
        .inner_join_set(VecSetIterator::new(vec![1]));
    assert_eq!(Some((1, 'a')), filtered.next());
    for _ in 0..3 {
        assert_eq!(None, filtered.next());
    }

    let mut outer = VecMapIterator::new(vec![(1, 'a')]).outer_join(VecMapIterator::new(vec![(1, 10)]));
    assert_eq!(Some((1, (Some('a'), Some(10)))), outer.next());
    for _ in 0..3 {
        assert_eq!(None, outer.next());
    }
}

#[test]
fn outer_join_marks_each_side() {
    let mut outer = VecMapIterator::new(vec![(1, 'a'), (3, 'c'), (6, 'f')])
        .outer_join(VecMapIterator::new(vec![(2, 20), (3, 30), (7, 70), (8, 80)]));
    assert_eq!(Some((1, (Some('a'), None))), outer.next());
    assert_eq!(Some((2, (None, Some(20)))), outer.next());
    assert_eq!(Some((3, (Some('c'), Some(30)))), outer.next());
    assert_eq!(Some((6, (Some('f'), None))), outer.next());
    assert_eq!(Some((7, (None, Some(70)))), outer.next());
    assert_eq!(Some((8, (None, Some(80)))), outer.next());
    assert_eq!(None, outer.next());
}

#[test]
fn map_filtered_by_set_either_way_round() {
    let entries = vec![(1, "one"), (2, "two"), (4, "four"), (5, "five")];
    let keys = vec![2, 3, 5];

    let mut from_map = VecMapIterator::new(entries.clone()).inner_join_set(VecSetIterator::new(keys.clone()));
    let mut from_set = VecSetIterator::new(keys).inner_join_map(VecMapIterator::new(entries));
    for expected in [Some((2, "two")), Some((5, "five")), None] {
        assert_eq!(expected, from_map.next());
        assert_eq!(expected, from_set.next());
    }
}

#[test]
fn map_join_results_join_again() {
    let a = VecMapIterator::new(vec![(1, 'a'), (2, 'b'), (3, 'c'), (4, 'd')]);
    let b = VecMapIterator::new(vec![(2, 20), (3, 30), (4, 40)]);
    let c = VecMapIterator::new(vec![(3, true), (4, false), (9, true)]);
    let mut joined = a.inner_join_map(b).inner_join_map(c).inner_join_set(VecSetIterator::new(vec![4]));
    assert_eq!(Some((4, (('d', 40), false))), joined.next());
    assert_eq!(None, joined.next());

    let left = VecMapIterator::new(vec![(1, 'a'), (2, 'b')])
        .inner_join_set(VecSetIterator::new(vec![1, 2]));
    let mut outer = left.outer_join(VecMapIterator::new(vec![(2, 5)]));
    assert_eq!(Some((1, (Some('a'), None))), outer.next());
    assert_eq!(Some((2, (Some('b'), Some(5)))), outer.next());
    assert_eq!(None, outer.next());
}

#[test]
fn peeking_does_not_consume() {
    let mut p = PeekableEntries::new(VecMapIterator::new(vec![(4, 'x'), (7, 'y')]));
    assert_eq!(Some(4), p.peek_key());
    assert_eq!(Some(4), p.peek_key());
    assert_eq!(Some((4, 'x')), p.next());
    assert_eq!(Some(7), p.peek_key());
    assert_eq!(Some((7, 'y')), p.next());
    assert_eq!(None, p.peek_key());
    assert_eq!(None, p.next());
}

#[test]
fn unsorted_input_is_merged_without_failing() {
    let mut joined = VecSetIterator::new(vec![3, 1, 2]).inner_join_set(VecSetIterator::new(vec![1, 2, 3]));
    assert_eq!(Some(3), joined.next());
    assert_eq!(None, joined.next());
}

#[test]
fn sources_yield_in_the_given_order() {
    let mut s = VecSetIterator::new(vec![5, 1, 9]);
    assert_eq!(Some(5), s.next());
    assert_eq!(Some(1), s.next());
    assert_eq!(Some(9), s.next());
    assert_eq!(None, s.next());
    let mut m = VecMapIterator::new(vec![(2, 'q'), (1, 'r')]);
    assert_eq!(Some((2, 'q')), m.next());
    assert_eq!(Some((1, 'r')), m.next());
    assert_eq!(None, m.next());
}
