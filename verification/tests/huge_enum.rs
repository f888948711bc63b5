use enum_map::EnumMap;
use enum_map::samples::Huge;

#[test]
fn huge_enum() {
    let map: EnumMap<Huge, i32> = EnumMap::from_fn(|_| 2);
    assert_eq!(*map.get(Huge::Xx), 2);
}
