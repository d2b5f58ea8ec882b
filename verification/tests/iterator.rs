use pipeline_core::MyFilter;
use pipeline_core::MyFromIterator;
use pipeline_core::MyIterator;
use pipeline_core::MyMap;
use pipeline_core::SliceIterator;
use std::collections::HashSet;

#[test]
fn test_my_iterator() {
    let result = SliceIterator::new(&[1, 2, 3, 4, 5])
        .filter(|x: &&i32| **x % 2 == 0)
        .map(|x: &i32| x * 2)
        .collect::<Vec<_>>();

    assert_eq!(result, vec![4, 8]);
}

#[test]
fn my_filter_next_returns_next_item() {
    let mut iter = MyFilter::new(SliceIterator::new(&[1, 2, 3, 4]), |x: &&i32| **x % 2 == 0);
    assert_eq!(iter.next(), Some(&2));
    assert_eq!(iter.next(), Some(&4));
}

#[test]
fn my_filter_next_returns_none_when_iteration_is_over() {
    let mut iter = MyFilter::new(SliceIterator::new(&[1, 2]), |x: &&i32| **x % 2 == 0);
    _ = iter.next();
    assert_eq!(iter.next(), None);
}

#[test]
fn vec_from_iter_returns_vec() {
    let iter = SliceIterator::new(&[1, 2, 3]);
    let result = Vec::my_from_iter(iter);
    assert_eq!(result, vec![&1, &2, &3]);
}

#[test]
fn hash_set_from_iter_returns_hash_set() {
    let iter = SliceIterator::new(&[1, 2, 3]);
    let result = HashSet::my_from_iter(iter);
    assert_eq!(result, HashSet::from([&1, &2, &3]));
}

#[test]
fn my_map_next_returns_next_item() {
    let mut iter = MyMap::new(SliceIterator::new(&[1, 2, 3]), |x: &i32| x * 2);
    assert_eq!(iter.next(), Some(2));
    assert_eq!(iter.next(), Some(4));
    assert_eq!(iter.next(), Some(6));
}

#[test]
fn my_map_next_returns_none_when_iteration_is_over() {
    let mut iter = MyMap::new(SliceIterator::new(&[1]), |x: &i32| x * 2);
    _ = iter.next();
    assert_eq!(iter.next(), None);
}

#[test]
fn slice_iterator_next_returns_next_item() {
    let mut iter = SliceIterator::new(&[1, 2, 3]);
    assert_eq!(iter.next(), Some(&1));
    assert_eq!(iter.next(), Some(&2));
    assert_eq!(iter.next(), Some(&3));
}

#[test]
fn slice_iterator_next_returns_none_when_iteration_is_over() {
    let mut iter = SliceIterator::new(&[1]);
    _ = iter.next();
    assert_eq!(iter.next(), None);
}
