use std::cell::Cell;
use std::rc::Rc;

use sysmlv2_model::layered::{LayeredMap, LayeredVec};

/// A row that counts how often rows of its family are copied.
struct Row {
    value: i32,
    copies: Rc<Cell<usize>>,
}

impl Clone for Row {
    fn clone(&self) -> Row {
        self.copies.set(self.copies.get() + 1);
        Row { value: self.value, copies: Rc::clone(&self.copies) }
    }
}

fn values(v: &LayeredVec<i32>) -> Vec<i32> {
    v.iter().into_iter().copied().collect()
}

#[test]
fn overrides_append_and_refreeze_do_not_change_shared_bases() {
    let mut a: LayeredVec<i32> = LayeredVec::from_rows(vec![1, 2]);
    a.freeze();
    let mut b = a.clone();
    b.set(0, 3);
    b.push(4);
    b.freeze();
    assert_eq!(values(&a), vec![1, 2]);
    assert_eq!(values(&b), vec![3, 2, 4]);
    let mut a: LayeredMap<u32, u32> = LayeredMap::new();
    a.insert(1, 2);
    a.freeze();
    let mut b = a.clone();
    *b.entry(1).or_default() = 3;
    b.insert(4, 5);
    b.freeze();
    assert_eq!(a.get(&1), Some(&2));
    assert_eq!(a.get(&4), None);
    assert_eq!(b.get(&1), Some(&3));
    assert_eq!(b.get(&4), Some(&5));
}

#[test]
fn reference_iteration_copies_nothing_and_copies_are_counted() {
    let copied = Rc::new(Cell::new(0));
    let row = |value: i32| Row { value, copies: Rc::clone(&copied) };
    let mut a: LayeredVec<Row> = LayeredVec::from_rows(vec![row(1), row(2)]);
    a.freeze();
    let mut b = a.clone();
    b.push(row(3));
    let before = copied.get();
    assert_eq!(b.iter().into_iter().map(|r| r.value).sum::<i32>(), 6);
    assert_eq!(b.iter().into_iter().count(), 3);
    assert_eq!(copied.get(), before, "reading a table copies no rows");
    let c = b.clone();
    assert_eq!(copied.get(), before + 1, "a clone copies only the tail");
    drop(c);
    b.freeze();
    assert_eq!(copied.get(), before + 4, "merging a shared prefix copies it");
    let mut m: LayeredMap<u32, Row> = LayeredMap::new();
    m.insert(1, row(2));
    m.freeze();
    let mut n = m.clone();
    n.insert(3, row(4));
    let before = copied.get();
    assert_eq!(n.iter().into_iter().count(), 2);
    assert_eq!(copied.get(), before);
    let _ = n.clone();
    assert_eq!(copied.get(), before + 1);
    n.freeze();
    assert_eq!(copied.get(), before + 2, "merging a shared prefix copies it");
}

#[test]
fn rows_read_through_the_layers() {
    let mut v: LayeredVec<u8> = LayeredVec::from_rows(vec![7, 8]);
    assert_eq!(v.len(), 2);
    assert!(!v.is_empty());
    v.freeze();
    let mut w = v.clone();
    assert!(w.shares_prefix(&v));
    w.set(1, 9);
    w.resize(4, 5);
    assert_eq!(w.get(1), Some(&9));
    assert_eq!(w.get(3), Some(&5));
    assert_eq!(w.get(4), None);
    assert_eq!(*w.index(0), 7);
    assert_eq!(v.get(1), Some(&8));
    w.freeze();
    assert!(!w.shares_prefix(&v));
    assert_eq!(w.len(), 4);
}

#[test]
fn a_private_row_covers_a_shared_one() {
    let mut m: LayeredMap<u64, u64> = LayeredMap::new();
    m.insert(1, 10);
    m.insert(2, 20);
    m.freeze();
    m.insert(2, 21);
    m.insert(3, 30);
    assert!(m.contains_key(&1));
    assert!(!m.contains_key(&4));
    let mut rows: Vec<(u64, u64)> = m.iter().into_iter().map(|(k, v)| (*k, *v)).collect();
    rows.sort();
    assert_eq!(rows, vec![(1, 10), (2, 21), (3, 30)]);
    let mut keys: Vec<u64> = m.keys().into_iter().copied().collect();
    keys.sort();
    assert_eq!(keys, vec![1, 2, 3]);
}

#[test]
fn an_entry_that_is_dropped_changes_nothing() {
    let mut m: LayeredMap<i32, i32> = LayeredMap::new();
    m.insert(1, 10);
    m.freeze();
    let shared = m.clone();
    drop(m.entry(2));
    assert!(!m.contains_key(&2));
    drop(m.entry(1));
    assert_eq!(m.get(&1), Some(&10));
    *m.entry(1).or_insert(0) += 1;
    assert_eq!((m.get(&1), shared.get(&1)), (Some(&11), Some(&10)));
}
