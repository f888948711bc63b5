use std::cell::RefCell;

use enum_map::EnumMap;
use enum_map::IntoIter;
use enum_map::samples::Duo;

#[test]
fn iterator_len() {
    let map: EnumMap<Duo, i32> = EnumMap::from_array(vec![0, 0]);
    assert_eq!(map.iter().len(), 2);
}

#[test]
fn iterator_next_back() {
    let map: EnumMap<Duo, i32> = EnumMap::from_array(vec![1, 2]);
    assert_eq!(map.iter().next_back(), Some((Duo::B, &2)));
}

struct DropReporter<'a> {
    into: &'a RefCell<Vec<usize>>,
    value: usize,
}

impl<'a> Drop for DropReporter<'a> {
    fn drop(&mut self) {
        self.into.borrow_mut().push(self.value);
    }
}

#[test]
fn into_iter_drop() {
    let dropped = RefCell::new(Vec::new());
    let map: EnumMap<Duo, DropReporter> = EnumMap::from_fn(|k| DropReporter {
        into: &dropped,
        value: k as usize,
    });
    let mut a: IntoIter<Duo, DropReporter> = map.into_iter();
    assert_eq!(a.next().unwrap().0, Duo::A);
    assert_eq!(*dropped.borrow(), &[0]);
    drop(a);
    assert_eq!(*dropped.borrow(), &[0, 1]);
}
