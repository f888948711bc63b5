//! A total, array-backed mapping from the values of a finite key type to
//! values of an arbitrary type.
//!
//! A key type declares how its inhabitants are numbered by implementing
//! [`Enum`]: every key owns exactly one index in `0..N`, where `N` is the
//! type's cardinality, and every index in that range names exactly one key.
//! [`EnumMap`] stores one value per index in a contiguous buffer and turns
//! that numbering into constant-time, error-free lookup by key.
//!
//! The numbering itself need not be written by hand for every enumeration:
//! the [`shape`] module derives it for arbitrarily nested enumerations —
//! unit variants, variants carrying further finite key types, and any
//! composition of those — from a description of the type's shape alone.

use vstd::prelude::*;

pub mod entries;
pub mod iter;
pub mod keys;
pub mod map;
pub mod samples;
pub mod shape;

pub use iter::IntoIter;
pub use iter::Iter;
pub use iter::IterMut;
pub use map::EnumMap;
pub use map::Guard;

verus! {

/// A finite key type whose inhabitants are numbered `0..N`.
///
/// `length_spec` is the cardinality `N`; `index_spec` assigns each key its
/// index and `key_spec` is the inverse assignment. The proof obligations make
/// the pair a bijection between the inhabitants and `0..N`: every index is in
/// range, no two keys share an index, and `key_spec` really does invert
/// `index_spec`. The executable `into_usize` and `from_usize` are pinned to
/// those spec functions, so every implementation of this trait carries its
/// own proof that the numbering is dense and unambiguous.
pub trait Enum: Sized {
    /// The cardinality: the number of distinct values of this type.
    spec fn length_spec() -> nat;

    /// The index assigned to this value.
    spec fn index_spec(self) -> int;

    /// The value assigned to an index.
    spec fn key_spec(i: int) -> Self;

    /// Every value's index lies in `0..N`.
    proof fn lemma_index_in_range(self)
        ensures
            0 <= self.index_spec() < Self::length_spec(),
    ;

    /// No two values share an index.
    proof fn lemma_index_injective(a: Self, b: Self)
        ensures
            a.index_spec() == b.index_spec() ==> a == b,
    ;

    /// `key_spec` is a right inverse of `index_spec` on `0..N`.
    proof fn lemma_key_index(i: int)
        requires
            0 <= i < Self::length_spec(),
        ensures
            Self::key_spec(i).index_spec() == i,
    ;

    /// The cardinality, as a machine integer. Implementations must show that
    /// it fits in `usize`.
    fn length() -> (r: usize)
        ensures
            r == Self::length_spec(),
    ;

    /// The index assigned to this value.
    fn into_usize(self) -> (r: usize)
        ensures
            r == self.index_spec(),
    ;

    /// The value assigned to `value`. Indices at or above the cardinality
    /// name no value and are ruled out by the precondition.
    fn from_usize(value: usize) -> (r: Self)
        requires
            value < Self::length_spec(),
        ensures
            r == Self::key_spec(value as int),
    ;
}

/// Decoding an index and re-encoding the result yields the same index, for
/// every index in `0..N`.
pub proof fn lemma_round_trip_from_index<K: Enum>(i: int)
    requires
        0 <= i < K::length_spec(),
    ensures
        K::key_spec(i).index_spec() == i,
{
    K::lemma_key_index(i);
}

/// Encoding a key and decoding the result yields the same key, for every key.
pub proof fn lemma_round_trip_from_key<K: Enum>(k: K)
    ensures
        K::key_spec(k.index_spec()) == k,
{
    k.lemma_index_in_range();
    K::lemma_key_index(k.index_spec());
    K::lemma_index_injective(K::key_spec(k.index_spec()), k);
}

/// The indices of the inhabitants cover `0..N` exactly: each index below the
/// cardinality is taken by some key, and no key's index falls outside.
pub proof fn lemma_index_coverage<K: Enum>()
    ensures
        forall|i: int|
            0 <= i < K::length_spec() ==> (#[trigger] K::key_spec(i)).index_spec() == i,
        forall|k: K| 0 <= #[trigger] k.index_spec() < K::length_spec(),
{
    assert forall|i: int|
        0 <= i < K::length_spec() implies (#[trigger] K::key_spec(i)).index_spec() == i by {
        K::lemma_key_index(i);
    }
    assert forall|k: K| 0 <= #[trigger] k.index_spec() < K::length_spec() by {
        k.lemma_index_in_range();
    }
}

/// The image of the index assignment is exactly the set `{0, .., N - 1}`:
/// no gaps, and — since distinct keys never share an index — no duplicates.
pub proof fn lemma_index_image<K: Enum>()
    ensures
        Set::new(|i: int| exists|k: K| (#[trigger] k.index_spec()) == i) =~= Set::new(
            |i: int| 0 <= i < K::length_spec(),
        ),
{
    let image = Set::new(|i: int| exists|k: K| (#[trigger] k.index_spec()) == i);
    let range = Set::new(|i: int| 0 <= i < K::length_spec());
    assert forall|i: int| #[trigger] image.contains(i) implies range.contains(i) by {
        let k = choose|k: K| (#[trigger] k.index_spec()) == i;
        k.lemma_index_in_range();
    }
    assert forall|i: int| #[trigger] range.contains(i) implies image.contains(i) by {
        K::lemma_key_index(i);
        assert(K::key_spec(i).index_spec() == i);
    }
    assert(image =~= range);
}

} // verus!
