//! Ascending ordering of readable stream identifiers.

use quic_dispatch::sort::sort_ids;

#[test]
fn sorts_ascending() {
    let mut v = vec![8u64, 4, 12, 0, 4];
    sort_ids(&mut v);
    assert_eq!(v, vec![0, 4, 4, 8, 12]);
}

#[test]
fn empty_and_single() {
    let mut v: Vec<u64> = vec![];
    sort_ids(&mut v);
    assert_eq!(v, Vec::<u64>::new());
    let mut v = vec![5u64];
    sort_ids(&mut v);
    assert_eq!(v, vec![5]);
}

#[test]
fn already_sorted_and_reversed() {
    let mut v = vec![1u64, 2, 3, 4];
    sort_ids(&mut v);
    assert_eq!(v, vec![1, 2, 3, 4]);
    let mut v = vec![u64::MAX, 9, 5, 1];
    sort_ids(&mut v);
    assert_eq!(v, vec![1, 5, 9, u64::MAX]);
}
