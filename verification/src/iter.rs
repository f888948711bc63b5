//! Iteration over an [`EnumMap`], in ascending index order.
//!
//! [`Iter`] walks a borrowed map from both ends and reports its exact
//! remaining length at every step; [`IterMut`] does the same while yielding
//! each value behind a mutable reference; [`IntoIter`] transfers ownership
//! of each value from the front. All three recompute each key from its index
//! as they go — the map stores no keys.

use vstd::prelude::*;

use core::marker::PhantomData;

use crate::Enum;
use crate::map::EnumMap;

verus! {

/// A double-ended iterator over the (key, value) pairs of a borrowed
/// [`EnumMap`], in ascending index order.
///
/// The pairs not yet yielded are those at indices `front..back` of the map's
/// value sequence.
pub struct Iter<'a, K: Enum, V> {
    map: &'a EnumMap<K, V>,
    front: usize,
    back: usize,
}

impl<'a, K: Enum, V> Iter<'a, K, V> {
    /// The value sequence of the map being walked.
    pub closed spec fn seq(&self) -> Seq<V> {
        self.map@
    }

    /// The index of the next pair the front end will yield.
    pub closed spec fn front_spec(&self) -> int {
        self.front as int
    }

    /// One past the index of the next pair the back end will yield.
    pub closed spec fn back_spec(&self) -> int {
        self.back as int
    }

    /// The cursors stay ordered and inside the map.
    pub open spec fn wf(&self) -> bool {
        0 <= self.front_spec() <= self.back_spec() <= self.seq().len()
            && self.seq().len() == K::length_spec()
    }

    /// The exact number of pairs not yet yielded.
    pub fn len(&self) -> (r: usize)
        requires
            self.wf(),
        ensures
            r == self.back_spec() - self.front_spec(),
    {
        self.back - self.front
    }

    /// Yields the pair with the lowest index not yet yielded, or nothing once
    /// the two ends have met. Each yielded pair couples the key of index `i`
    /// with the value stored at `i`, and the remaining length shrinks by one.
    pub fn next(&mut self) -> (r: Option<(K, &'a V)>)
        requires
            old(self).wf(),
        ensures
            final(self).wf(),
            final(self).seq() == old(self).seq(),
            final(self).back_spec() == old(self).back_spec(),
            old(self).front_spec() == old(self).back_spec() ==> r is None
                && final(self).front_spec() == old(self).front_spec(),
            old(self).front_spec() < old(self).back_spec() ==> final(self).front_spec() == old(self).front_spec() + 1
                && (r matches Some(p) && p.0 == K::key_spec(old(self).front_spec())
                && *p.1 == old(self).seq()[old(self).front_spec()]),
    {
        if self.front < self.back {
            let k = K::from_usize(self.front);
            let s = self.map.as_slice();
            let v = &s[self.front];
            self.front = self.front + 1;
            Some((k, v))
        } else {
            None
        }
    }

    /// Yields the pair with the highest index not yet yielded, or nothing
    /// once the two ends have met. Walking only this end enumerates the map
    /// in exact reverse of the ascending order.
    pub fn next_back(&mut self) -> (r: Option<(K, &'a V)>)
        requires
            old(self).wf(),
        ensures
            final(self).wf(),
            final(self).seq() == old(self).seq(),
            final(self).front_spec() == old(self).front_spec(),
            old(self).front_spec() == old(self).back_spec() ==> r is None
                && final(self).back_spec() == old(self).back_spec(),
            old(self).front_spec() < old(self).back_spec() ==> final(self).back_spec() == old(self).back_spec() - 1
                && (r matches Some(p) && p.0 == K::key_spec(old(self).back_spec() - 1)
                && *p.1 == old(self).seq()[old(self).back_spec() - 1]),
    {
        if self.front < self.back {
            self.back = self.back - 1;
            let k = K::from_usize(self.back);
            let s = self.map.as_slice();
            let v = &s[self.back];
            Some((k, v))
        } else {
            None
        }
    }
}

/// An iterator that consumes an [`EnumMap`], yielding ownership of each
/// (key, value) pair in ascending index order.
pub struct IntoIter<K: Enum, V> {
    pub(crate) rest: Vec<V>,
    pub(crate) position: usize,
    pub(crate) _key: PhantomData<K>,
}

impl<K: Enum, V> IntoIter<K, V> {
    /// Starts an iterator at index 0 over a full buffer of values.
    pub(crate) fn from_values(values: Vec<V>) -> (r: IntoIter<K, V>)
        requires
            values@.len() == K::length_spec(),
        ensures
            r.wf(),
            r.remaining() == values@,
            r.position_spec() == 0,
    {
        proof {
            vstd::std_specs::vec::axiom_spec_len(&values);
        }
        IntoIter { rest: values, position: 0, _key: PhantomData }
    }

    /// The values not yet yielded, in index order.
    pub closed spec fn remaining(&self) -> Seq<V> {
        self.rest@
    }

    /// The index of the next key to yield.
    pub closed spec fn position_spec(&self) -> int {
        self.position as int
    }

    /// The yielded prefix and the remaining values together always span the
    /// key type's whole index range, which fits the machine's index type.
    pub open spec fn wf(&self) -> bool {
        self.position_spec() + self.remaining().len() == K::length_spec()
            && K::length_spec() <= usize::MAX
    }

    /// Yields ownership of the pair with the lowest index not yet yielded,
    /// or nothing once the map is exhausted.
    pub fn next(&mut self) -> (r: Option<(K, V)>)
        requires
            old(self).wf(),
        ensures
            final(self).wf(),
            old(self).remaining().len() == 0 ==> r is None
                && final(self).remaining() == old(self).remaining()
                && final(self).position_spec() == old(self).position_spec(),
            old(self).remaining().len() > 0 ==> final(self).remaining() == old(self).remaining().skip(1)
                && final(self).position_spec() == old(self).position_spec() + 1
                && (r matches Some(p) && p.0 == K::key_spec(old(self).position_spec())
                && p.1 == old(self).remaining()[0]),
    {
        if self.rest.len() > 0 {
            let k = K::from_usize(self.position);
            let v = self.rest.remove(0);
            proof {
                assert(self.rest@ =~= old(self).remaining().skip(1));
            }
            self.position = self.position + 1;
            Some((k, v))
        } else {
            None
        }
    }
}

impl<K: Enum, V> EnumMap<K, V> {
    /// Returns an iterator over the map's (key, value) pairs in ascending
    /// index order.
    pub fn iter<'a>(&'a self) -> (r: Iter<'a, K, V>)
        requires
            self.wf(),
        ensures
            r.wf(),
            r.seq() == self@,
            r.front_spec() == 0,
            r.back_spec() == K::length_spec(),
    {
        let back = self.len();
        Iter { map: self, front: 0, back }
    }
}


/// A double-ended iterator over the (key, value) pairs of a mutably borrowed
/// [`EnumMap`], in ascending index order, yielding each value behind a
/// mutable reference.
///
/// The pairs not yet yielded are those at indices `front..back` of the map's
/// value sequence; whatever a caller leaves behind a yielded reference is
/// what the underlying map holds at that key's index once the iteration is
/// over.
pub struct IterMut<'a, K: Enum, V> {
    map: &'a mut EnumMap<K, V>,
    front: usize,
    back: usize,
}

impl<'a, K: Enum, V> IterMut<'a, K, V> {
    /// The current value sequence of the map being walked.
    pub closed spec fn seq(&self) -> Seq<V> {
        (*self.map)@
    }

    /// The borrow of the map being walked.
    pub closed spec fn target(self) -> &'a mut EnumMap<K, V> {
        self.map
    }

    /// The index of the next pair the front end will yield.
    pub closed spec fn front_spec(&self) -> int {
        self.front as int
    }

    /// One past the index of the next pair the back end will yield.
    pub closed spec fn back_spec(&self) -> int {
        self.back as int
    }

    /// The cursors stay ordered and inside the map.
    pub open spec fn wf(&self) -> bool {
        0 <= self.front_spec() <= self.back_spec() <= self.seq().len()
            && self.seq().len() == K::length_spec()
    }

    /// The exact number of pairs not yet yielded.
    pub fn len(&self) -> (r: usize)
        requires
            self.wf(),
        ensures
            r == self.back_spec() - self.front_spec(),
    {
        self.back - self.front
    }

    /// Yields the pair with the lowest index not yet yielded, its value
    /// behind a mutable reference, or nothing once the two ends have met.
    /// The map ends up holding whatever the caller leaves behind the
    /// reference, at that key's index alone.
    pub fn next(&mut self) -> (r: Option<(K, &mut V)>)
        requires
            old(self).wf(),
        ensures
            final(self).wf(),
            (*final(old(self).target()))@ == (*final(final(self).target()))@,
            final(self).back_spec() == old(self).back_spec(),
            old(self).front_spec() == old(self).back_spec() ==> r is None
                && final(self).front_spec() == old(self).front_spec()
                && final(self).seq() == old(self).seq(),
            old(self).front_spec() < old(self).back_spec() ==> final(self).front_spec() == old(self).front_spec() + 1
                && (r matches Some(p) && p.0 == K::key_spec(old(self).front_spec())
                && *p.1 == old(self).seq()[old(self).front_spec()]
                && final(self).seq() == old(self).seq().update(old(self).front_spec(), *final(p.1))),
    {
        if self.front < self.back {
            let idx = self.front;
            self.front = idx + 1;
            proof {
                K::lemma_key_index(idx as int);
            }
            let v = self.map.get_mut(K::from_usize(idx));
            Some((K::from_usize(idx), v))
        } else {
            None
        }
    }

    /// Yields the pair with the highest index not yet yielded, its value
    /// behind a mutable reference, or nothing once the two ends have met.
    pub fn next_back(&mut self) -> (r: Option<(K, &mut V)>)
        requires
            old(self).wf(),
        ensures
            final(self).wf(),
            (*final(old(self).target()))@ == (*final(final(self).target()))@,
            final(self).front_spec() == old(self).front_spec(),
            old(self).front_spec() == old(self).back_spec() ==> r is None
                && final(self).back_spec() == old(self).back_spec()
                && final(self).seq() == old(self).seq(),
            old(self).front_spec() < old(self).back_spec() ==> final(self).back_spec() == old(self).back_spec() - 1
                && (r matches Some(p) && p.0 == K::key_spec(old(self).back_spec() - 1)
                && *p.1 == old(self).seq()[old(self).back_spec() - 1]
                && final(self).seq() == old(self).seq().update(old(self).back_spec() - 1, *final(p.1))),
    {
        if self.front < self.back {
            let idx = self.back - 1;
            self.back = idx;
            proof {
                K::lemma_key_index(idx as int);
            }
            let v = self.map.get_mut(K::from_usize(idx));
            Some((K::from_usize(idx), v))
        } else {
            None
        }
    }
}

impl<K: Enum, V> EnumMap<K, V> {
    /// Returns an iterator over the map's (key, value) pairs in ascending
    /// index order, yielding each value behind a mutable reference. Once the
    /// iterator is done, the map holds exactly what the caller left behind
    /// the yielded references.
    pub fn iter_mut<'a>(&'a mut self) -> (r: IterMut<'a, K, V>)
        requires
            old(self).wf(),
        ensures
            r.wf(),
            r.seq() == old(self)@,
            r.front_spec() == 0,
            r.back_spec() == K::length_spec(),
            final(self)@ == (*final(r.target()))@,
    {
        let back = self.len();
        IterMut { map: self, front: 0, back }
    }
}

} // verus!
