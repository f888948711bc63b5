use std::cell::RefCell;

use enum_map::EnumMap;
use enum_map::IntoIter;
use enum_map::samples::{Discriminants, Example, Huge};

#[test]
fn test_test_bool() {
    let mut map: EnumMap<bool, i32> = EnumMap::from_array(vec![24, 42]);
    assert_eq!(*map.get(false), 24);
    assert_eq!(*map.get(true), 42);
    *map.get_mut(false) += 1;
    assert_eq!(*map.get(false), 25);
    let mut it = map.iter_mut();
    while let Some((key, item)) = it.next() {
        if !key {
            *item += 1;
        }
    }
    assert_eq!(*map.get(false), 26);
    assert_eq!(*map.get(true), 42);
}

#[test]
fn test_test_option_bool() {
    let mut map: EnumMap<Option<bool>, i32> = EnumMap::from_array(vec![1, 2, 3]);
    assert_eq!(*map.get(None), 1);
    assert_eq!(*map.get(Some(false)), 2);
    assert_eq!(*map.get(Some(true)), 3);
    map.set(None, 4);
    map.set(Some(false), 5);
    map.set(Some(true), 6);
    assert_eq!(*map.get(None), 4);
    assert_eq!(*map.get(Some(false)), 5);
    assert_eq!(*map.get(Some(true)), 6);
    assert_eq!(map.as_slice(), &[4, 5, 6]);
    let mut pairs: Vec<(Option<bool>, i32)> = Vec::new();
    let mut it = map.into_iter();
    while let Some(pair) = it.next() {
        pairs.push(pair);
    }
    assert_eq!(pairs, vec![(None, 4), (Some(false), 5), (Some(true), 6)]);
}

#[test]
fn test_discriminants() {
    let mut map: EnumMap<Discriminants, i32> = EnumMap::new();
    map.set(Discriminants::A, 3);
    map.set(Discriminants::B, 2);
    map.set(Discriminants::C, 1);
    let mut pairs = map.iter();
    assert_eq!(pairs.next(), Some((Discriminants::A, &3)));
    assert_eq!(pairs.next(), Some((Discriminants::B, &2)));
    assert_eq!(pairs.next(), Some((Discriminants::C, &1)));
    assert_eq!(pairs.next(), None);
}

#[test]
fn test_extend() {
    let mut map: EnumMap<Example, i32> = EnumMap::new();
    map.extend(vec![(Example::A, 3)]);
    map.extend(vec![(Example::B, 4)]);
    assert_eq!(map, EnumMap::from_array(vec![3, 4, 0]));
}

#[test]
fn test_huge_enum() {
    let map: EnumMap<Huge, i32> = EnumMap::from_fn(|_| 2);
    assert_eq!(*map.get(Huge::Xx), 2);
}

#[test]
fn test_iterator_len() {
    let map: EnumMap<Example, i32> = EnumMap::from_array(vec![0, 0, 0]);
    assert_eq!(map.iter().len(), 3);
}

#[test]
fn test_iterator_next_back() {
    let map: EnumMap<Example, i32> = EnumMap::from_array(vec![1, 2, 3]);
    assert_eq!(map.iter().next_back(), Some((Example::C, &3)));
}

struct DropReporter<'a> {
    into: &'a RefCell<Vec<usize>>,
    value: usize,
}

impl<'a> Drop for DropReporter<'a> {
    fn drop(&mut self) {
        self.into.borrow_mut().push(self.value);
    }
}

#[test]
fn test_into_iter_drop() {
    let dropped = RefCell::new(Vec::new());
    let map: EnumMap<Example, DropReporter> = EnumMap::from_fn(|k| DropReporter {
        into: &dropped,
        value: k as usize,
    });
    let mut a: IntoIter<Example, DropReporter> = map.into_iter();
    assert_eq!(a.next().unwrap().0, Example::A);
    assert_eq!(*dropped.borrow(), &[0]);
    drop(a);
    assert_eq!(*dropped.borrow(), &[0, 1, 2]);
}

#[test]
fn test_test_u8() {
    let map: EnumMap<u8, i32> = EnumMap::from_fn(|k| if k == b'a' { 4 } else { 0 });
    assert_eq!(*map.get(b'a'), 4);
    assert_eq!(*map.get(b'b'), 0);
}
