use enum_map::EnumMap;

#[test]
fn test_bool() {
    let mut map: EnumMap<bool, i32> = EnumMap::from_array(vec![24, 42]);
    assert_eq!(*map.get(false), 24);
    assert_eq!(*map.get(true), 42);
    *map.get_mut(false) += 1;
    assert_eq!(*map.get(false), 25);
    let mut it = map.iter_mut();
    while let Some((key, item)) = it.next() {
        if !key {
            *item += 1;
        }
    }
    assert_eq!(*map.get(false), 26);
    assert_eq!(*map.get(true), 42);
}

#[test]
fn test_option_bool() {
    let mut map: EnumMap<Option<bool>, i32> = EnumMap::from_array(vec![1, 2, 3]);
    assert_eq!(*map.get(None), 1);
    assert_eq!(*map.get(Some(false)), 2);
    assert_eq!(*map.get(Some(true)), 3);
    map.set(None, 4);
    map.set(Some(false), 5);
    map.set(Some(true), 6);
    assert_eq!(*map.get(None), 4);
    assert_eq!(*map.get(Some(false)), 5);
    assert_eq!(*map.get(Some(true)), 6);
    assert_eq!(map.as_slice(), &[4, 5, 6]);
    let mut pairs: Vec<(Option<bool>, i32)> = Vec::new();
    let mut it = map.into_iter();
    while let Some(pair) = it.next() {
        pairs.push(pair);
    }
    assert_eq!(pairs, vec![(None, 4), (Some(false), 5), (Some(true), 6)]);
}
