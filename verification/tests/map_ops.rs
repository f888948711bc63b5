use enum_map::Enum;
use enum_map::EnumMap;
use enum_map::Guard;
use enum_map::samples::{Duo, Example};

#[test]
fn swap_exchanges_two_values() {
    let mut map: EnumMap<bool, i32> = EnumMap::from_array(vec![0, 1]);
    map.swap(false, true);
    assert_eq!(*map.get(false), 1);
    assert_eq!(*map.get(true), 0);
    map.swap(true, true);
    assert_eq!(*map.get(true), 0);
}

#[test]
fn clear_restores_defaults() {
    let mut map: EnumMap<Duo, String> = EnumMap::new();
    map.set(Duo::B, String::from("foo"));
    map.clear();
    assert_eq!(*map.get(Duo::A), "");
    assert_eq!(*map.get(Duo::B), "");
}

#[test]
fn default_map_holds_default_values() {
    let map: EnumMap<Example, i32> = EnumMap::default();
    assert_eq!(*map.get(Example::A), 0);
    assert_eq!(*map.get(Example::B), 0);
    assert_eq!(*map.get(Example::C), 0);
    assert_eq!(map.len(), 3);
}

#[test]
fn set_leaves_other_keys_unchanged() {
    let mut map: EnumMap<Example, i32> = EnumMap::from_array(vec![1, 2, 3]);
    map.set(Example::B, 20);
    assert_eq!(*map.get(Example::A), 1);
    assert_eq!(*map.get(Example::B), 20);
    assert_eq!(*map.get(Example::C), 3);
}

#[test]
fn map_applies_in_index_order() {
    let a: EnumMap<bool, i32> = EnumMap::from_array(vec![0, 1]);
    let b: EnumMap<bool, i32> = a.map(|_, x| x + 10);
    assert_eq!(b.as_slice(), &[10, 11]);
}

#[test]
fn map_sees_each_key() {
    let a: EnumMap<Example, i32> = EnumMap::from_array(vec![5, 6, 7]);
    let b: EnumMap<Example, i32> = a.map(|k, x| if k == Example::B { 0 } else { x });
    assert_eq!(b.as_slice(), &[5, 0, 7]);
}

#[test]
fn from_fn_initializes_every_key() {
    let map: EnumMap<Example, bool> = EnumMap::from_fn(|k| k == Example::B);
    assert_eq!(map.as_slice(), &[false, true, false]);
}

#[test]
fn guard_builds_in_index_order() {
    let mut guard: Guard<bool, i32> = Guard::new();
    assert_eq!(guard.storage_length(), 2);
    assert_eq!(guard.initialized(), 0);
    assert_eq!(guard.get_key(), false);
    guard.push(5);
    assert_eq!(guard.initialized(), 1);
    assert_eq!(guard.get_key(), true);
    guard.push(7);
    assert_eq!(guard.initialized(), 2);
    let map = guard.finish();
    assert_eq!(*map.get(false), 5);
    assert_eq!(*map.get(true), 7);
}

#[test]
fn reversed_iteration_is_the_exact_reverse() {
    let map: EnumMap<Example, i32> = EnumMap::from_array(vec![1, 2, 3]);
    let mut forward: Vec<(Example, i32)> = Vec::new();
    let mut it = map.iter();
    while let Some((key, value)) = it.next() {
        forward.push((key, *value));
    }
    let mut backward: Vec<(Example, i32)> = Vec::new();
    let mut it = map.iter();
    while let Some((key, value)) = it.next_back() {
        backward.push((key, *value));
    }
    backward.reverse();
    assert_eq!(forward, backward);
    assert_eq!(forward, vec![(Example::A, 1), (Example::B, 2), (Example::C, 3)]);
}

#[test]
fn iterator_len_counts_down_to_zero() {
    let map: EnumMap<Example, i32> = EnumMap::from_array(vec![1, 2, 3]);
    let mut it = map.iter();
    assert_eq!(it.len(), 3);
    it.next();
    assert_eq!(it.len(), 2);
    it.next_back();
    assert_eq!(it.len(), 1);
    it.next();
    assert_eq!(it.len(), 0);
    assert_eq!(it.next(), None);
    assert_eq!(it.next_back(), None);
}

#[test]
fn size_hint_scales_by_cardinality() {
    assert_eq!(EnumMap::<Example, i32>::size_hint(2, Some(5)), (6, Some(15)));
    assert_eq!(EnumMap::<Example, i32>::size_hint(0, None), (0, None));
    assert_eq!(
        EnumMap::<Example, i32>::size_hint(usize::MAX, Some(usize::MAX)),
        (usize::MAX, None)
    );
}

#[test]
fn unit_and_ordering_keys() {
    let map: EnumMap<(), i32> = EnumMap::from_array(vec![9]);
    assert_eq!(*map.get(()), 9);
    let map: EnumMap<core::cmp::Ordering, i32> = EnumMap::from_array(vec![10, 20, 30]);
    assert_eq!(*map.get(core::cmp::Ordering::Less), 10);
    assert_eq!(*map.get(core::cmp::Ordering::Equal), 20);
    assert_eq!(*map.get(core::cmp::Ordering::Greater), 30);
}

#[test]
fn trait_round_trip_on_samples() {
    let mut i: usize = 0;
    while i < 3 {
        assert_eq!(Example::from_usize(i).into_usize(), i);
        i += 1;
    }
    assert_eq!(u8::from_usize(200).into_usize(), 200);
    assert_eq!(<Option<bool> as Enum>::from_usize(0), None);
    assert_eq!(<Option<bool> as Enum>::from_usize(1), Some(false));
    assert_eq!(<Option<bool> as Enum>::from_usize(2), Some(true));
}

#[test]
fn mutable_iteration_from_the_back() {
    let mut map: EnumMap<Example, i32> = EnumMap::from_array(vec![1, 2, 3]);
    let mut it = map.iter_mut();
    assert_eq!(it.len(), 3);
    if let Some((key, item)) = it.next_back() {
        assert_eq!(key, Example::C);
        *item = 30;
    }
    assert_eq!(it.len(), 2);
    drop(it);
    assert_eq!(map.as_slice(), &[1, 2, 30]);
}
