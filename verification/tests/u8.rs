use enum_map::EnumMap;

#[test]
fn test_u8() {
    let map: EnumMap<u8, i32> = EnumMap::from_fn(|k| if k == b'a' { 4 } else { 0 });
    assert_eq!(*map.get(b'a'), 4);
    assert_eq!(*map.get(b'b'), 0);
}
