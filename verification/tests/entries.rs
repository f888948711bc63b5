use enum_map::entries::Error;
use enum_map::EnumMap;
use enum_map::samples::Example;

#[test]
fn from_entries_in_any_order() {
    let map: EnumMap<Example, i32> =
        EnumMap::from_entries(vec![(Example::B, 2), (Example::C, 3), (Example::A, 1)]).unwrap();
    assert_eq!(map.as_slice(), &[1, 2, 3]);
}

#[test]
fn from_entries_missing_key() {
    let r: Result<EnumMap<Example, i32>, Error> =
        EnumMap::from_entries(vec![(Example::A, 1), (Example::C, 3)]);
    assert_eq!(r, Err(Error::KeyNotSpecified));
}

#[test]
fn from_entries_empty_input() {
    let r: Result<EnumMap<Example, i32>, Error> = EnumMap::from_entries(vec![]);
    assert_eq!(r, Err(Error::KeyNotSpecified));
}

#[test]
fn from_entries_duplicate_key_last_wins() {
    let map: EnumMap<Example, i32> = EnumMap::from_entries(vec![
        (Example::A, 1),
        (Example::B, 2),
        (Example::C, 3),
        (Example::A, 9),
    ])
    .unwrap();
    assert_eq!(*map.get(Example::A), 9);
    assert_eq!(*map.get(Example::B), 2);
    assert_eq!(*map.get(Example::C), 3);
}

#[test]
fn serialized_pairs_deserialize_to_the_same_map() {
    let map: EnumMap<Example, i32> = EnumMap::from_array(vec![7, 8, 9]);
    let mut pairs: Vec<(Example, i32)> = Vec::new();
    let mut it = map.iter();
    while let Some((key, value)) = it.next() {
        pairs.push((key, *value));
    }
    assert_eq!(pairs.len(), 3);
    let back: EnumMap<Example, i32> = EnumMap::from_entries(pairs).unwrap();
    assert_eq!(back, map);
}
