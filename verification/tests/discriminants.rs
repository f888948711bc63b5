use enum_map::EnumMap;
use enum_map::samples::Discriminants;

#[test]
fn discriminants() {
    let mut map: EnumMap<Discriminants, i32> = EnumMap::new();
    map.set(Discriminants::A, 3);
    map.set(Discriminants::B, 2);
    map.set(Discriminants::C, 1);
    let mut pairs = map.iter();
    assert_eq!(pairs.next(), Some((Discriminants::A, &3)));
    assert_eq!(pairs.next(), Some((Discriminants::B, &2)));
    assert_eq!(pairs.next(), Some((Discriminants::C, &1)));
    assert_eq!(pairs.next(), None);
}
