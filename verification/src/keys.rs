//! Numberings for primitive stand-in key types.
//!
//! `bool`, `u8`, `()` and `core::cmp::Ordering` are not enumerations in the
//! language's sense, but each has a fixed, finite set of inhabitants and so
//! can serve as a key type.

use vstd::prelude::*;

use crate::Enum;

verus! {

impl Enum for bool {
    open spec fn length_spec() -> nat {
        2
    }

    open spec fn index_spec(self) -> int {
        if self {
            1
        } else {
            0
        }
    }

    open spec fn key_spec(i: int) -> bool {
        i == 1
    }

    proof fn lemma_index_in_range(self) {
    }

    proof fn lemma_index_injective(a: bool, b: bool) {
    }

    proof fn lemma_key_index(i: int) {
    }

    fn length() -> usize {
        2
    }

    fn into_usize(self) -> usize {
        if self {
            1
        } else {
            0
        }
    }

    fn from_usize(value: usize) -> bool {
        value == 1
    }
}

impl Enum for u8 {
    open spec fn length_spec() -> nat {
        256
    }

    open spec fn index_spec(self) -> int {
        self as int
    }

    open spec fn key_spec(i: int) -> u8 {
        i as u8
    }

    proof fn lemma_index_in_range(self) {
    }

    proof fn lemma_index_injective(a: u8, b: u8) {
    }

    proof fn lemma_key_index(i: int) {
    }

    fn length() -> usize {
        256
    }

    fn into_usize(self) -> usize {
        self as usize
    }

    fn from_usize(value: usize) -> u8 {
        value as u8
    }
}

impl Enum for () {
    open spec fn length_spec() -> nat {
        1
    }

    open spec fn index_spec(self) -> int {
        0
    }

    open spec fn key_spec(i: int) -> () {
        ()
    }

    proof fn lemma_index_in_range(self) {
    }

    proof fn lemma_index_injective(a: (), b: ()) {
    }

    proof fn lemma_key_index(i: int) {
    }

    fn length() -> usize {
        1
    }

    fn into_usize(self) -> usize {
        0
    }

    fn from_usize(value: usize) -> () {
        ()
    }
}

/// `None` comes first, then `Some(k)` for each key `k` in its own order.
impl Enum for Option<bool> {
    open spec fn length_spec() -> nat {
        3
    }

    open spec fn index_spec(self) -> int {
        match self {
            None => 0,
            Some(b) => 1 + b.index_spec(),
        }
    }

    open spec fn key_spec(i: int) -> Option<bool> {
        if i == 0 {
            None
        } else {
            Some(i == 2)
        }
    }

    proof fn lemma_index_in_range(self) {
    }

    proof fn lemma_index_injective(a: Option<bool>, b: Option<bool>) {
    }

    proof fn lemma_key_index(i: int) {
    }

    fn length() -> usize {
        3
    }

    fn into_usize(self) -> usize {
        match self {
            None => 0,
            Some(b) => 1 + b.into_usize(),
        }
    }

    fn from_usize(value: usize) -> Option<bool> {
        if value == 0 {
            None
        } else {
            Some(value == 2)
        }
    }
}

impl Enum for core::cmp::Ordering {
    open spec fn length_spec() -> nat {
        3
    }

    open spec fn index_spec(self) -> int {
        match self {
            core::cmp::Ordering::Less => 0,
            core::cmp::Ordering::Equal => 1,
            core::cmp::Ordering::Greater => 2,
        }
    }

    open spec fn key_spec(i: int) -> core::cmp::Ordering {
        if i == 0 {
            core::cmp::Ordering::Less
        } else if i == 1 {
            core::cmp::Ordering::Equal
        } else {
            core::cmp::Ordering::Greater
        }
    }

    proof fn lemma_index_in_range(self) {
    }

    proof fn lemma_index_injective(a: core::cmp::Ordering, b: core::cmp::Ordering) {
    }

    proof fn lemma_key_index(i: int) {
    }

    fn length() -> usize {
        3
    }

    fn into_usize(self) -> usize {
        match self {
            core::cmp::Ordering::Less => 0,
            core::cmp::Ordering::Equal => 1,
            core::cmp::Ordering::Greater => 2,
        }
    }

    fn from_usize(value: usize) -> core::cmp::Ordering {
        if value == 0 {
            core::cmp::Ordering::Less
        } else if value == 1 {
            core::cmp::Ordering::Equal
        } else {
            core::cmp::Ordering::Greater
        }
    }
}

} // verus!
