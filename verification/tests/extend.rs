use enum_map::EnumMap;
use enum_map::samples::Example;

#[test]
fn extend() {
    let mut map: EnumMap<Example, i32> = EnumMap::new();
    map.extend(vec![(Example::A, 3)]);
    map.extend(vec![(Example::B, 4)]);
    assert_eq!(map, EnumMap::from_array(vec![3, 4, 0]));
}
