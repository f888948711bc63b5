//! The array-backed total map.
//!
//! An [`EnumMap`] owns exactly one value for every inhabitant of its key
//! type: the backing buffer holds `N` values, contiguous and ordered by the
//! key numbering, and is never resized after construction. Keys are not
//! stored at all — a key is recomputed from its index whenever it is needed —
//! and lookup never fails, because [`Enum`] guarantees every key an index
//! below `N`.

use vstd::prelude::*;

use core::marker::PhantomData;

use crate::Enum;
use crate::iter::IntoIter;

verus! {

/// A total map from the inhabitants of `K` to values of type `V`, backed by
/// a contiguous buffer of exactly `K::length_spec()` values in index order.
///
/// Its mathematical view is the sequence of values by index: the value for
/// key `k` is `self@[k.index_spec()]`.
#[derive(Debug, PartialEq, Eq)]
pub struct EnumMap<K: Enum, V> {
    values: Vec<V>,
    _key: PhantomData<K>,
}

impl<K: Enum, V> View for EnumMap<K, V> {
    type V = Seq<V>;

    closed spec fn view(&self) -> Seq<V> {
        self.values@
    }
}

impl<K: Enum, V> EnumMap<K, V> {
    /// The backing buffer holds exactly one value per key.
    ///
    /// Every constructor establishes this and every method preserves it.
    pub open spec fn wf(&self) -> bool {
        self@.len() == K::length_spec()
    }

    /// Creates a map from a buffer of values in index order, which must hold
    /// exactly one value per key.
    pub fn from_array(array: Vec<V>) -> (r: EnumMap<K, V>)
        requires
            array@.len() == K::length_spec(),
        ensures
            r.wf(),
            r@ == array@,
    {
        EnumMap { values: array, _key: PhantomData }
    }

    /// Returns the number of elements: the key type's cardinality.
    pub fn len(&self) -> (r: usize)
        requires
            self.wf(),
        ensures
            r == K::length_spec(),
            r == self@.len(),
    {
        self.values.len()
    }

    /// Returns the value for `key`. Never fails: every key has an index
    /// below the cardinality.
    pub fn get(&self, key: K) -> (r: &V)
        requires
            self.wf(),
        ensures
            *r == self@[key.index_spec()],
    {
        proof {
            key.lemma_index_in_range();
        }
        let i = key.into_usize();
        &self.values[i]
    }

    /// Returns a mutable reference to the value for `key`; the map afterwards
    /// holds whatever the caller leaves behind the reference, at that key's
    /// index alone.
    pub fn get_mut(&mut self, key: K) -> (r: &mut V)
        requires
            old(self).wf(),
        ensures
            *r == old(self)@[key.index_spec()],
            final(self)@ == old(self)@.update(key.index_spec(), *final(r)),
            final(self).wf(),
    {
        proof {
            key.lemma_index_in_range();
        }
        let i = key.into_usize();
        &mut self.values[i]
    }

    /// Replaces the value for `key`; every other key's value is unchanged.
    pub fn set(&mut self, key: K, value: V)
        requires
            old(self).wf(),
        ensures
            final(self).wf(),
            final(self)@ == old(self)@.update(key.index_spec(), value),
    {
        proof {
            key.lemma_index_in_range();
        }
        let i = key.into_usize();
        self.values[i] = value;
    }

    /// Exchanges the values stored for two keys; every other key's value is
    /// unchanged.
    pub fn swap(&mut self, a: K, b: K)
        requires
            old(self).wf(),
        ensures
            final(self).wf(),
            final(self)@ == old(self)@.update(a.index_spec(), old(self)@[b.index_spec()]).update(
                b.index_spec(),
                old(self)@[a.index_spec()],
            ),
    {
        proof {
            a.lemma_index_in_range();
            b.lemma_index_in_range();
        }
        let ghost orig = self.values@;
        let ia = a.into_usize();
        let ib = b.into_usize();
        if ia == ib {
            proof {
                assert(orig.update(ia as int, orig[ib as int]).update(ib as int, orig[ia as int])
                    =~= orig);
            }
        } else {
            let lo = if ia < ib {
                ia
            } else {
                ib
            };
            let hi = if ia < ib {
                ib
            } else {
                ia
            };
            let vhi = self.values.remove(hi);
            let vlo = self.values.remove(lo);
            self.values.insert(lo, vhi);
            self.values.insert(hi, vlo);
            proof {
                assert(self.values@ =~= orig.update(ia as int, orig[ib as int]).update(
                    ib as int,
                    orig[ia as int],
                ));
            }
        }
    }

    /// Exposes the backing buffer as a contiguous sequence in index order.
    pub fn as_slice(&self) -> (r: &[V])
        ensures
            r@ == self@,
    {
        self.values.as_slice()
    }

    /// Exposes the backing buffer mutably as a contiguous sequence in index
    /// order. The map remains well-formed as long as the sequence keeps its
    /// length, which a slice always does.
    pub fn as_mut_slice(&mut self) -> (r: &mut [V])
        ensures
            r@ == old(self)@,
            final(self)@ == final(r)@,
            final(r)@.len() == K::length_spec() ==> final(self).wf(),
    {
        self.values.as_mut_slice()
    }
}

impl<K: Enum, V: Default> EnumMap<K, V> {
    /// Creates a map holding the value type's default for every key.
    pub fn new() -> (r: EnumMap<K, V>)
        ensures
            r.wf(),
            forall|i: int|
                0 <= i < K::length_spec() ==> call_ensures(V::default, (), #[trigger] r@[i]),
    {
        let n = K::length();
        let mut values: Vec<V> = Vec::new();
        while values.len() < n
            invariant
                n == K::length_spec(),
                values@.len() <= n,
                forall|i: int|
                    0 <= i < values@.len() ==> call_ensures(V::default, (), #[trigger] values@[i]),
            decreases n - values@.len(),
        {
            values.push(V::default());
        }
        EnumMap { values, _key: PhantomData }
    }

    /// Overwrites every key's value with the value type's default.
    pub fn clear(&mut self)
        requires
            old(self).wf(),
        ensures
            final(self).wf(),
            forall|i: int|
                0 <= i < K::length_spec() ==> call_ensures(V::default, (), #[trigger] final(self)@[i]),
    {
        let n = self.values.len();
        let mut i: usize = 0;
        while i < n
            invariant
                self.values@.len() == n,
                n == K::length_spec(),
                i <= n,
                forall|j: int|
                    0 <= j < i ==> call_ensures(V::default, (), #[trigger] self.values@[j]),
            decreases n - i,
        {
            let v = V::default();
            self.values[i] = v;
            i += 1;
        }
    }
}

impl<K: Enum, V: Default> Default for EnumMap<K, V> {
    /// Same as [`EnumMap::new`]: the default map holds the value type's
    /// default for every key.
    fn default() -> (r: EnumMap<K, V>)
        ensures
            r.wf(),
            forall|i: int|
                0 <= i < K::length_spec() ==> call_ensures(V::default, (), #[trigger] r@[i]),
    {
        EnumMap::new()
    }
}

impl<K: Enum, V> EnumMap<K, V> {
    /// Builds a map by calling `init` once per key, in ascending index order.
    ///
    /// The value stored at index `i` is an output of `init` on the key with
    /// index `i`.
    pub fn from_fn<F: Fn(K) -> V>(init: F) -> (r: EnumMap<K, V>)
        requires
            forall|k: K| call_requires(init, (k,)),
        ensures
            r.wf(),
            forall|i: int|
                0 <= i < K::length_spec() ==> call_ensures(
                    init,
                    (K::key_spec(i),),
                    #[trigger] r@[i],
                ),
    {
        let n = K::length();
        let mut values: Vec<V> = Vec::new();
        while values.len() < n
            invariant
                n == K::length_spec(),
                values@.len() <= n,
                forall|k: K| call_requires(init, (k,)),
                forall|i: int|
                    0 <= i < values@.len() ==> call_ensures(
                        init,
                        (K::key_spec(i),),
                        #[trigger] values@[i],
                    ),
            decreases n - values@.len(),
        {
            let i = values.len();
            let k = K::from_usize(i);
            let v = init(k);
            values.push(v);
        }
        EnumMap { values, _key: PhantomData }
    }
}

/// The sequence left after writing each of `entries`, in order, into `s` at
/// the index of the entry's key. A later entry for the same key overwrites an
/// earlier one.
pub open spec fn seq_write<K: Enum, V>(s: Seq<V>, entries: Seq<(K, V)>) -> Seq<V>
    decreases entries.len(),
{
    if entries.len() == 0 {
        s
    } else {
        seq_write(s.update(entries[0].0.index_spec(), entries[0].1), entries.skip(1))
    }
}

/// Writing entries never changes the length of a full-length sequence.
pub proof fn lemma_seq_write_len<K: Enum, V>(s: Seq<V>, entries: Seq<(K, V)>)
    requires
        s.len() == K::length_spec(),
    ensures
        seq_write(s, entries).len() == s.len(),
    decreases entries.len(),
{
    if entries.len() > 0 {
        entries[0].0.lemma_index_in_range();
        lemma_seq_write_len(s.update(entries[0].0.index_spec(), entries[0].1), entries.skip(1));
    }
}

impl<K: Enum, V> EnumMap<K, V> {
    /// Writes each of `entries`, in order, into the map at its key. A later
    /// entry for the same key overwrites an earlier one.
    pub fn extend(&mut self, entries: Vec<(K, V)>)
        requires
            old(self).wf(),
        ensures
            final(self).wf(),
            final(self)@ == seq_write(old(self)@, entries@),
    {
        let ghost all = entries@;
        let mut rest = entries;
        proof {
            lemma_seq_write_len::<K, V>(self.values@, all);
        }
        while rest.len() > 0
            invariant
                self.values@.len() == K::length_spec(),
                seq_write(self.values@, rest@) == seq_write(old(self)@, all),
            decreases rest@.len(),
        {
            let (key, value) = rest.remove(0);
            proof {
                key.lemma_index_in_range();
            }
            let i = key.into_usize();
            self.values[i] = value;
        }
    }

    /// Builds a map over a possibly different value type by applying `f` to
    /// every (key, value) pair, in ascending index order, consuming this map.
    ///
    /// The value stored at index `i` of the result is an output of `f` on the
    /// key with index `i` and the value this map stored there.
    pub fn map<T, F: Fn(K, V) -> T>(self, f: F) -> (r: EnumMap<K, T>)
        requires
            self.wf(),
            forall|i: int|
                0 <= i < K::length_spec() ==> call_requires(f, (K::key_spec(i), self@[i])),
        ensures
            r.wf(),
            forall|i: int|
                0 <= i < K::length_spec() ==> call_ensures(
                    f,
                    (K::key_spec(i), self@[i]),
                    #[trigger] r@[i],
                ),
    {
        let ghost orig = self@;
        let mut rest = self.values;
        let mut values: Vec<T> = Vec::new();
        while rest.len() > 0
            invariant
                orig.len() == K::length_spec(),
                values@.len() + rest@.len() == K::length_spec(),
                rest@ == orig.skip(values@.len() as int),
                forall|i: int|
                    0 <= i < K::length_spec() ==> call_requires(f, (K::key_spec(i), orig[i])),
                forall|i: int|
                    0 <= i < values@.len() ==> call_ensures(
                        f,
                        (K::key_spec(i), orig[i]),
                        #[trigger] values@[i],
                    ),
            decreases rest@.len(),
        {
            let i = values.len();
            let k = K::from_usize(i);
            proof {
                orig.skip(i as int).remove_ensures(0);
                assert(rest@[0] == orig[i as int]);
            }
            let v = rest.remove(0);
            proof {
                assert(rest@ =~= orig.skip(i + 1));
            }
            let t = f(k, v);
            values.push(t);
        }
        EnumMap { values, _key: PhantomData }
    }
}

impl<K: Enum, V> EnumMap<K, V> {
    /// The combined size hint for producing one value per key from a supply
    /// of input bytes, given the hint `(lo, hi)` for a single value: the
    /// per-value bounds scale by the cardinality, the lower bound saturating
    /// and the upper bound disappearing when it no longer fits.
    pub fn size_hint(lo: usize, hi: Option<usize>) -> (r: (usize, Option<usize>))
        ensures
            K::length_spec() == 0 ==> r == (0usize, Some(0usize)),
            K::length_spec() > 0 ==> {
                &&& lo * K::length_spec() <= usize::MAX ==> r.0 == lo * K::length_spec()
                &&& lo * K::length_spec() > usize::MAX ==> r.0 == usize::MAX
                &&& (hi is None ==> r.1 is None)
                &&& (hi matches Some(h) ==> {
                    &&& h * K::length_spec() <= usize::MAX ==> (r.1 == Some(
                        (h * K::length_spec()) as usize,
                    ))
                    &&& h * K::length_spec() > usize::MAX ==> r.1 is None
                })
            },
    {
        let n = K::length();
        if n == 0 {
            (0, Some(0))
        } else {
            let low = match lo.checked_mul(n) {
                Some(x) => x,
                None => usize::MAX,
            };
            let high = match hi {
                None => None,
                Some(h) => h.checked_mul(n),
            };
            (low, high)
        }
    }

    /// Turns the map into an iterator that yields ownership of every
    /// (key, value) pair in ascending index order.
    pub fn into_iter(self) -> (r: IntoIter<K, V>)
        requires
            self.wf(),
        ensures
            r.wf(),
            r.remaining() == self@,
            r.position_spec() == 0,
    {
        IntoIter::from_values(self.values)
    }
}

/// A progress-tracked builder for an [`EnumMap`].
///
/// The backing buffer is filled one value at a time, in ascending index
/// order; the builder knows at every moment exactly how many values are
/// committed. Abandoning the builder before it is full simply releases the
/// committed prefix; only a full builder can become a map.
pub struct Guard<K: Enum, V> {
    values: Vec<V>,
    _key: PhantomData<K>,
}

impl<K: Enum, V> View for Guard<K, V> {
    type V = Seq<V>;

    closed spec fn view(&self) -> Seq<V> {
        self.values@
    }
}

impl<K: Enum, V> Guard<K, V> {
    /// Starts a builder with no committed values.
    pub fn new() -> (r: Guard<K, V>)
        ensures
            r@ == Seq::<V>::empty(),
    {
        Guard { values: Vec::new(), _key: PhantomData }
    }

    /// The number of values the finished map will hold: the key type's
    /// cardinality.
    pub fn storage_length(&self) -> (r: usize)
        ensures
            r == K::length_spec(),
    {
        K::length()
    }

    /// The number of values committed so far.
    pub fn initialized(&self) -> (r: usize)
        ensures
            r == self@.len(),
    {
        self.values.len()
    }

    /// The key whose value the next [`push`](Guard::push) will commit.
    pub fn get_key(&self) -> (r: K)
        requires
            self@.len() < K::length_spec(),
        ensures
            r == K::key_spec(self@.len() as int),
    {
        K::from_usize(self.values.len())
    }

    /// Commits the value for the next key in index order.
    pub fn push(&mut self, value: V)
        requires
            old(self)@.len() < K::length_spec(),
        ensures
            final(self)@ == old(self)@.push(value),
    {
        self.values.push(value);
    }

    /// Turns a fully committed builder into the finished map.
    pub fn finish(self) -> (r: EnumMap<K, V>)
        requires
            self@.len() == K::length_spec(),
        ensures
            r.wf(),
            r@ == self@,
    {
        EnumMap { values: self.values, _key: PhantomData }
    }
}

/// After `set(k, v)`, `get(k)` observes `v` and `get(k2)` observes the old
/// value for every other key `k2`: distinct keys never share an index, so an
/// update at one key's index leaves every other key's value untouched.
pub proof fn lemma_set_preserves_other_keys<K: Enum, V>(before: Seq<V>, k: K, v: V, k2: K)
    requires
        before.len() == K::length_spec(),
        k2 != k,
    ensures
        before.update(k.index_spec(), v)[k.index_spec()] == v,
        before.update(k.index_spec(), v)[k2.index_spec()] == before[k2.index_spec()],
{
    k.lemma_index_in_range();
    k2.lemma_index_in_range();
    K::lemma_index_injective(k, k2);
}

} // verus!
