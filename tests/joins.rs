use ordered_iter::{
    EntryIterator, KeyIterator, OrderedMapIterator, OrderedSetIterator, VecMapIterator,
    VecSetIterator,
};
use std::collections::{BTreeMap, BTreeSet};

#[test]
fn join_two_sets() {
    let powers_of_two: BTreeSet<i64> = (1..10).map(|x| x * 2).collect();
    let powers_of_three: BTreeSet<i64> = (1..10).map(|x| x * 3).collect();

    let expected = vec![6, 12, 18];

    let mut joined = VecSetIterator::new(powers_of_two.iter().copied().collect())
        .inner_join_set(VecSetIterator::new(powers_of_three.iter().copied().collect()));
    let mut powers_of_two_and_three: Vec<i64> = Vec::new();
    while let Some(k) = joined.next() {
        powers_of_two_and_three.push(k);
    }

    assert_eq!(expected, powers_of_two_and_three);
}

#[test]
fn join_three_sets() {
    let powers_of_two: BTreeSet<i64> = (1..100).map(|x| x * 2).collect();
    let powers_of_three: BTreeSet<i64> = (1..100).map(|x| x * 3).collect();
    let powers_of_five: BTreeSet<i64> = (1..100).map(|x| x * 5).collect();

    let expected = vec![30, 60, 90, 120, 150, 180];

    let mut joined = VecSetIterator::new(powers_of_two.iter().copied().collect())
        .inner_join_set(VecSetIterator::new(powers_of_three.iter().copied().collect()))
        .inner_join_set(VecSetIterator::new(powers_of_five.iter().copied().collect()));
    let mut powers_of_two_and_three: Vec<i64> = Vec::new();
    while let Some(k) = joined.next() {
        powers_of_two_and_three.push(k);
    }

    assert_eq!(expected, powers_of_two_and_three);
}

#[test]
fn join_two_maps() {
    let powers_of_two: BTreeMap<i64, i64> = (1..10).map(|x| (x * 2, x)).collect();
    let powers_of_three: BTreeMap<i64, i64> = (1..10).map(|x| (x * 3, x)).collect();

    let mut powers_of_two_and_three = VecMapIterator::new(powers_of_two.into_iter().collect())
        .inner_join_map(VecMapIterator::new(powers_of_three.into_iter().collect()));
    let mut next = || powers_of_two_and_three.next().map(|(k, (a, b))| (k, a, b));

    assert_eq!(Some((6, 3, 2)), next());
    assert_eq!(Some((12, 6, 4)), next());
    assert_eq!(Some((18, 9, 6)), next());
    assert_eq!(None, next());
}

#[test]
fn join_two_maps_to_set() {
    let powers_of_two: BTreeSet<i64> = (1..10).map(|x| x * 2).collect();
    let powers_of_three: BTreeMap<i64, i64> = (1..10).map(|x| (x * 3, x)).collect();

    let mut powers_of_two_and_three = VecSetIterator::new(powers_of_two.into_iter().collect())
        .inner_join_map(VecMapIterator::new(powers_of_three.into_iter().collect()));

    assert_eq!(Some((6, 2)), powers_of_two_and_three.next());
    assert_eq!(Some((12, 4)), powers_of_two_and_three.next());
    assert_eq!(Some((18, 6)), powers_of_two_and_three.next());
    assert_eq!(None, powers_of_two_and_three.next());
}

#[test]
fn outer_join_fizz_buzz() {
    let mul_of_three: BTreeMap<i64, i64> = (0..100).map(|x| (x * 3, x)).collect();
    let mul_of_five: BTreeMap<i64, i64> = (0..100).map(|x| (x * 5, x)).collect();

    let mut fizz_buzz = BTreeMap::new();

    let mut joined = VecMapIterator::new(mul_of_three.into_iter().collect())
        .outer_join(VecMapIterator::new(mul_of_five.into_iter().collect()));
    while let Some((key, (three, five))) = joined.next() {
        fizz_buzz.insert(key, (three.is_some(), five.is_some()));
    }

    let res: BTreeMap<i64, String> = (1..100)
        .map(|i| {
            (
                i,
                match fizz_buzz.get(&i) {
                    None => format!("{}", i),
                    Some(&(true, false)) => format!("Fizz"),
                    Some(&(false, true)) => format!("Buzz"),
                    Some(&(true, true)) => format!("FizzBuzz"),
                    Some(&(false, false)) => panic!("Outer join failed..."),
                },
            )
        })
        .collect();

    for i in 1..100 {
        match (i % 3, i % 5) {
            (0, 0) => assert_eq!("FizzBuzz", res[&i].as_str()),
            (0, _) => assert_eq!("Fizz", res[&i].as_str()),
            (_, 0) => assert_eq!("Buzz", res[&i].as_str()),
            _ => assert_eq!(format!("{}", i).as_str(), res[&i].as_str()),
        }
    }
}
