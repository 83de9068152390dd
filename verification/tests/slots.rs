//! The one-slot waker tables.

use quic_dispatch::slots::Slots;

#[test]
fn empty_table() {
    let mut t: Slots<u64> = Slots::new();
    assert!(t.is_empty());
    assert_eq!(t.len(), 0);
    assert!(!t.contains(7));
    assert_eq!(t.remove(7), None);
}

#[test]
fn insert_and_remove() {
    let mut t: Slots<u64> = Slots::new();
    t.insert(4, 100);
    t.insert(8, 200);
    assert_eq!(t.len(), 2);
    assert!(t.contains(4));
    assert!(t.contains(8));
    assert!(!t.contains(12));
    assert_eq!(t.remove(4), Some(100));
    assert!(!t.contains(4));
    assert_eq!(t.remove(4), None);
    assert_eq!(t.remove(8), Some(200));
    assert!(t.is_empty());
}

#[test]
fn insert_replaces() {
    // A second registration overwrites: one waker per slot.
    let mut t: Slots<u64> = Slots::new();
    t.insert(4, 100);
    t.insert(4, 101);
    assert_eq!(t.len(), 1);
    assert_eq!(t.remove(4), Some(101));
    assert!(t.is_empty());
}

#[test]
fn take_all_hands_each_value_once() {
    let mut t: Slots<u64> = Slots::new();
    t.insert(4, 100);
    t.insert(8, 200);
    t.insert(12, 300);
    let mut out = t.take_all();
    out.sort();
    assert_eq!(out, vec![100, 200, 300]);
    assert!(t.is_empty());
    assert!(!t.contains(4));
}
