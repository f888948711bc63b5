//! Bulk construction of an [`EnumMap`] from (key, value) entries.
//!
//! This is the map's one fallible boundary. A sequence of entries, in any
//! order and possibly with repeated keys, describes a map as long as every
//! key receives a value: a later entry for a key overwrites an earlier one,
//! and a key that never appears is reported as [`Error::KeyNotSpecified`] —
//! no partial map is ever returned. Serialization is the inverse reading:
//! a map's pairs, in ascending index order.

use vstd::prelude::*;

use crate::Enum;
use crate::map::EnumMap;

verus! {

/// Why a sequence of entries failed to describe a map.
#[derive(Clone, Copy, Debug, PartialEq, Eq)]
pub enum Error {
    /// Some key never received a value.
    KeyNotSpecified,
}

/// The value that `entries` leave at index `i`: the value of the last entry
/// whose key has index `i`, if any entry does.
pub open spec fn last_write<K: Enum, V>(entries: Seq<(K, V)>, i: int) -> Option<V>
    decreases entries.len(),
{
    if entries.len() == 0 {
        None
    } else if entries.last().0.index_spec() == i {
        Some(entries.last().1)
    } else {
        last_write(entries.drop_last(), i)
    }
}

/// Whether `entries` leave a value at every index of the key type.
pub open spec fn covers_all<K: Enum, V>(entries: Seq<(K, V)>) -> bool {
    forall|i: int|
        0 <= i < K::length_spec() ==> (#[trigger] last_write::<K, V>(entries, i)) is Some
}

/// Appending one entry overwrites exactly its own key's value.
pub proof fn lemma_last_write_push<K: Enum, V>(entries: Seq<(K, V)>, e: (K, V), i: int)
    ensures
        last_write::<K, V>(entries.push(e), i) == (if e.0.index_spec() == i {
            Some(e.1)
        } else {
            last_write::<K, V>(entries, i)
        }),
{
    assert(entries.push(e).drop_last() =~= entries);
    assert(entries.push(e).last() == e);
}

impl<K: Enum, V> EnumMap<K, V> {
    /// Builds a map from a sequence of entries, in any order.
    ///
    /// Succeeds exactly when every key receives a value; the value stored for
    /// a key is that of its last entry, so a repeated key is overwritten and
    /// the later value wins. When some key never appears the result is
    /// [`Error::KeyNotSpecified`] and no map at all.
    pub fn from_entries(entries: Vec<(K, V)>) -> (r: Result<EnumMap<K, V>, Error>)
        ensures
            r is Ok <==> covers_all::<K, V>(entries@),
            r matches Ok(m) ==> m.wf() && (forall|i: int|
                0 <= i < K::length_spec() ==> Some(#[trigger] m@[i]) == last_write::<K, V>(
                    entries@,
                    i,
                )),
            r is Err ==> r == Err::<EnumMap<K, V>, Error>(Error::KeyNotSpecified),
    {
        let ghost all = entries@;
        let n = K::length();

        let mut slots: Vec<Option<V>> = Vec::new();
        while slots.len() < n
            invariant
                slots@.len() <= n,
                forall|j: int| 0 <= j < slots@.len() ==> slots@[j] is None,
            decreases n - slots@.len(),
        {
            slots.push(None);
        }

        let ghost mut processed = Seq::<(K, V)>::empty();
        let mut rest = entries;
        while rest.len() > 0
            invariant
                n == K::length_spec(),
                slots@.len() == n,
                processed + rest@ == all,
                forall|i: int|
                    0 <= i < n ==> slots@[i] == last_write::<K, V>(processed, i),
            decreases rest@.len(),
        {
            let ghost e = rest@[0];
            let (key, value) = rest.remove(0);
            proof {
                key.lemma_index_in_range();
            }
            let i = key.into_usize();
            slots[i] = Some(value);
            proof {
                lemma_last_write_push::<K, V>(processed, e, i as int);
                assert forall|j: int| 0 <= j < n implies slots@[j] == last_write::<K, V>(
                    processed.push(e),
                    j,
                ) by {
                    lemma_last_write_push::<K, V>(processed, e, j);
                }
                assert(processed.push(e) + rest@ =~= all);
                processed = processed.push(e);
            }
        }
        proof {
            assert(processed =~= all);
        }

        let mut out: Vec<V> = Vec::new();
        let mut i: usize = 0;
        while i < n
            invariant
                n == K::length_spec(),
                all == entries@,
                i <= n,
                slots@.len() == n,
                out@.len() == i,
                forall|j: int| i <= j < n ==> slots@[j] == last_write::<K, V>(all, j),
                forall|j: int|
                    0 <= j < i ==> Some(#[trigger] out@[j]) == last_write::<K, V>(all, j),
            decreases n - i,
        {
            let slot_ref = &mut slots[i];
            let slot = slot_ref.take();
            match slot {
                None => {
                    proof {
                        assert(last_write::<K, V>(all, i as int) is None);
                        assert(!covers_all::<K, V>(all));
                    }
                    return Err(Error::KeyNotSpecified);
                },
                Some(value) => {
                    out.push(value);
                },
            }
            i = i + 1;
        }
        proof {
            assert forall|j: int|
                0 <= j < K::length_spec() implies (#[trigger] last_write::<K, V>(all, j))
                is Some by {
                assert(Some(out@[j]) == last_write::<K, V>(all, j));
            }
        }
        Ok(EnumMap::from_array(out))
    }
}

/// The (key, value) pairs of a value sequence, in ascending index order: the
/// pair at position `i` couples the key of index `i` with the value at `i`.
/// This is the serialized reading of a map.
pub open spec fn pairs_of<K: Enum, V>(s: Seq<V>) -> Seq<(K, V)> {
    Seq::new(s.len(), |i: int| (K::key_spec(i), s[i]))
}

/// Serialization yields exactly one pair per key, in ascending index order:
/// the pair at position `i` holds the key numbered `i` and the value stored
/// at `i`. Its reverse is therefore exactly the descending order.
pub proof fn lemma_pairs_ascending<K: Enum, V>(s: Seq<V>)
    requires
        s.len() == K::length_spec(),
    ensures
        pairs_of::<K, V>(s).len() == K::length_spec(),
        forall|i: int|
            0 <= i < s.len() ==> (#[trigger] pairs_of::<K, V>(s)[i]).0.index_spec() == i
                && pairs_of::<K, V>(s)[i].1 == s[i],
{
    assert forall|i: int|
        0 <= i < s.len() implies (#[trigger] pairs_of::<K, V>(s)[i]).0.index_spec() == i
        && pairs_of::<K, V>(s)[i].1 == s[i] by {
        K::lemma_key_index(i);
    }
}

/// What a prefix of a map's serialized pairs leaves at each index: the
/// value at that index for indices the prefix reaches, nothing beyond.
pub proof fn lemma_last_write_pairs<K: Enum, V>(s: Seq<V>, i: int)
    requires
        s.len() <= K::length_spec(),
    ensures
        last_write::<K, V>(pairs_of::<K, V>(s), i) == (if 0 <= i < s.len() {
            Some(s[i])
        } else {
            None::<V>
        }),
    decreases s.len(),
{
    if s.len() > 0 {
        K::lemma_key_index(s.len() - 1);
        assert(pairs_of::<K, V>(s).drop_last() =~= pairs_of::<K, V>(s.drop_last()));
        lemma_last_write_pairs::<K, V>(s.drop_last(), i);
    }
}

/// Serializing a map and deserializing the pairs reproduces the map: the
/// pairs cover every key, and the value each key receives back is exactly
/// the value the map stored for it.
pub proof fn lemma_serialize_then_deserialize<K: Enum, V>(s: Seq<V>)
    requires
        s.len() == K::length_spec(),
    ensures
        covers_all::<K, V>(pairs_of::<K, V>(s)),
        forall|i: int|
            0 <= i < s.len() ==> last_write::<K, V>(pairs_of::<K, V>(s), i) == Some(s[i]),
{
    assert forall|i: int|
        0 <= i < s.len() implies last_write::<K, V>(pairs_of::<K, V>(s), i) == Some(s[i]) by {
        lemma_last_write_pairs::<K, V>(s, i);
    }
}

/// When no two entries share a key, each entry's own value is what its key
/// receives: with nothing to overwrite it, the last write for that key is
/// the entry itself.
pub proof fn lemma_last_write_distinct_keys<K: Enum, V>(entries: Seq<(K, V)>, j: int)
    requires
        0 <= j < entries.len(),
        forall|a: int, b: int|
            0 <= a < b < entries.len() ==> (#[trigger] entries[a]).0.index_spec() != (
            #[trigger] entries[b]).0.index_spec(),
    ensures
        last_write::<K, V>(entries, entries[j].0.index_spec()) == Some(entries[j].1),
    decreases entries.len(),
{
    if j < entries.len() - 1 {
        lemma_last_write_distinct_keys::<K, V>(entries.drop_last(), j);
    }
}

/// Deserializing entries with pairwise-distinct keys that cover every key,
/// then serializing the resulting map, gives back each entry at the position
/// of its key's index: the round trip loses and changes nothing.
pub proof fn lemma_deserialize_then_serialize<K: Enum, V>(entries: Seq<(K, V)>, s: Seq<V>, j: int)
    requires
        s.len() == K::length_spec(),
        forall|i: int|
            0 <= i < s.len() ==> Some(#[trigger] s[i]) == last_write::<K, V>(entries, i),
        forall|a: int, b: int|
            0 <= a < b < entries.len() ==> (#[trigger] entries[a]).0.index_spec() != (
            #[trigger] entries[b]).0.index_spec(),
        0 <= j < entries.len(),
    ensures
        pairs_of::<K, V>(s)[entries[j].0.index_spec()] == entries[j],
{
    let key = entries[j].0;
    key.lemma_index_in_range();
    lemma_last_write_distinct_keys::<K, V>(entries, j);
    crate::lemma_round_trip_from_key::<K>(key);
}

} // verus!
