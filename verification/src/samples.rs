//! Sample key types.
//!
//! Small enumerations whose numberings are written out by hand, as a key
//! type's author would. Each implementation of [`Enum`] assigns indices in
//! declaration order and proves the bijection obligations; they double as the
//! key types exercised by the crate's test suite.

use vstd::prelude::*;

use crate::Enum;

verus! {

/// Three unit variants, indexed 0, 1, 2 in declaration order.
#[derive(Clone, Copy, Debug, PartialEq, Eq)]
pub enum Example {
    A,
    B,
    C,
}

impl Enum for Example {
    open spec fn length_spec() -> nat {
        3
    }

    open spec fn index_spec(self) -> int {
        match self {
            Example::A => 0,
            Example::B => 1,
            Example::C => 2,
        }
    }

    open spec fn key_spec(i: int) -> Example {
        if i == 0 {
            Example::A
        } else if i == 1 {
            Example::B
        } else {
            Example::C
        }
    }

    proof fn lemma_index_in_range(self) {
    }

    proof fn lemma_index_injective(a: Example, b: Example) {
    }

    proof fn lemma_key_index(i: int) {
    }

    fn length() -> usize {
        3
    }

    fn into_usize(self) -> usize {
        match self {
            Example::A => 0,
            Example::B => 1,
            Example::C => 2,
        }
    }

    fn from_usize(value: usize) -> Example {
        if value == 0 {
            Example::A
        } else if value == 1 {
            Example::B
        } else {
            Example::C
        }
    }
}

/// Two unit variants, indexed 0 and 1 in declaration order.
#[derive(Clone, Copy, Debug, PartialEq, Eq)]
pub enum Duo {
    A,
    B,
}

impl Enum for Duo {
    open spec fn length_spec() -> nat {
        2
    }

    open spec fn index_spec(self) -> int {
        match self {
            Duo::A => 0,
            Duo::B => 1,
        }
    }

    open spec fn key_spec(i: int) -> Duo {
        if i == 0 {
            Duo::A
        } else {
            Duo::B
        }
    }

    proof fn lemma_index_in_range(self) {
    }

    proof fn lemma_index_injective(a: Duo, b: Duo) {
    }

    proof fn lemma_key_index(i: int) {
    }

    fn length() -> usize {
        2
    }

    fn into_usize(self) -> usize {
        match self {
            Duo::A => 0,
            Duo::B => 1,
        }
    }

    fn from_usize(value: usize) -> Duo {
        if value == 0 {
            Duo::A
        } else {
            Duo::B
        }
    }
}

/// Indices follow declaration order alone. A numbering never depends on
/// language-level discriminant values, so a type that would carry explicit,
/// non-sequential discriminants is still indexed 0, 1, 2.
#[derive(Clone, Copy, Debug, PartialEq, Eq)]
pub enum Discriminants {
    A,
    B,
    C,
}

impl Enum for Discriminants {
    open spec fn length_spec() -> nat {
        3
    }

    open spec fn index_spec(self) -> int {
        match self {
            Discriminants::A => 0,
            Discriminants::B => 1,
            Discriminants::C => 2,
        }
    }

    open spec fn key_spec(i: int) -> Discriminants {
        if i == 0 {
            Discriminants::A
        } else if i == 1 {
            Discriminants::B
        } else {
            Discriminants::C
        }
    }

    proof fn lemma_index_in_range(self) {
    }

    proof fn lemma_index_injective(a: Discriminants, b: Discriminants) {
    }

    proof fn lemma_key_index(i: int) {
    }

    fn length() -> usize {
        3
    }

    fn into_usize(self) -> usize {
        match self {
            Discriminants::A => 0,
            Discriminants::B => 1,
            Discriminants::C => 2,
        }
    }

    fn from_usize(value: usize) -> Discriminants {
        if value == 0 {
            Discriminants::A
        } else if value == 1 {
            Discriminants::B
        } else {
            Discriminants::C
        }
    }
}

/// Fifty-two unit variants, indexed in declaration order.
#[derive(Clone, Copy, Debug, PartialEq, Eq)]
pub enum Huge {
    A,
    B,
    C,
    D,
    E,
    F,
    G,
    H,
    I,
    J,
    K,
    L,
    M,
    N,
    O,
    P,
    Q,
    R,
    S,
    T,
    U,
    V,
    W,
    X,
    Y,
    Z,
    Aa,
    Bb,
    Cc,
    Dd,
    Ee,
    Ff,
    Gg,
    Hh,
    Ii,
    Jj,
    Kk,
    Ll,
    Mm,
    Nn,
    Oo,
    Pp,
    Qq,
    Rr,
    Ss,
    Tt,
    Uu,
    Vv,
    Ww,
    Xx,
    Yy,
    Zz,
}

impl Enum for Huge {
    open spec fn length_spec() -> nat {
        52
    }

    open spec fn index_spec(self) -> int {
        match self {
            Huge::A => 0,
            Huge::B => 1,
            Huge::C => 2,
            Huge::D => 3,
            Huge::E => 4,
            Huge::F => 5,
            Huge::G => 6,
            Huge::H => 7,
            Huge::I => 8,
            Huge::J => 9,
            Huge::K => 10,
            Huge::L => 11,
            Huge::M => 12,
            Huge::N => 13,
            Huge::O => 14,
            Huge::P => 15,
            Huge::Q => 16,
            Huge::R => 17,
            Huge::S => 18,
            Huge::T => 19,
            Huge::U => 20,
            Huge::V => 21,
            Huge::W => 22,
            Huge::X => 23,
            Huge::Y => 24,
            Huge::Z => 25,
            Huge::Aa => 26,
            Huge::Bb => 27,
            Huge::Cc => 28,
            Huge::Dd => 29,
            Huge::Ee => 30,
            Huge::Ff => 31,
            Huge::Gg => 32,
            Huge::Hh => 33,
            Huge::Ii => 34,
            Huge::Jj => 35,
            Huge::Kk => 36,
            Huge::Ll => 37,
            Huge::Mm => 38,
            Huge::Nn => 39,
            Huge::Oo => 40,
            Huge::Pp => 41,
            Huge::Qq => 42,
            Huge::Rr => 43,
            Huge::Ss => 44,
            Huge::Tt => 45,
            Huge::Uu => 46,
            Huge::Vv => 47,
            Huge::Ww => 48,
            Huge::Xx => 49,
            Huge::Yy => 50,
            Huge::Zz => 51,
        }
    }

    open spec fn key_spec(i: int) -> Huge {
        if i == 0 {
            Huge::A
        } else if i == 1 {
            Huge::B
        } else if i == 2 {
            Huge::C
        } else if i == 3 {
            Huge::D
        } else if i == 4 {
            Huge::E
        } else if i == 5 {
            Huge::F
        } else if i == 6 {
            Huge::G
        } else if i == 7 {
            Huge::H
        } else if i == 8 {
            Huge::I
        } else if i == 9 {
            Huge::J
        } else if i == 10 {
            Huge::K
        } else if i == 11 {
            Huge::L
        } else if i == 12 {
            Huge::M
        } else if i == 13 {
            Huge::N
        } else if i == 14 {
            Huge::O
        } else if i == 15 {
            Huge::P
        } else if i == 16 {
            Huge::Q
        } else if i == 17 {
            Huge::R
        } else if i == 18 {
            Huge::S
        } else if i == 19 {
            Huge::T
        } else if i == 20 {
            Huge::U
        } else if i == 21 {
            Huge::V
        } else if i == 22 {
            Huge::W
        } else if i == 23 {
            Huge::X
        } else if i == 24 {
            Huge::Y
        } else if i == 25 {
            Huge::Z
        } else if i == 26 {
            Huge::Aa
        } else if i == 27 {
            Huge::Bb
        } else if i == 28 {
            Huge::Cc
        } else if i == 29 {
            Huge::Dd
        } else if i == 30 {
            Huge::Ee
        } else if i == 31 {
            Huge::Ff
        } else if i == 32 {
            Huge::Gg
        } else if i == 33 {
            Huge::Hh
        } else if i == 34 {
            Huge::Ii
        } else if i == 35 {
            Huge::Jj
        } else if i == 36 {
            Huge::Kk
        } else if i == 37 {
            Huge::Ll
        } else if i == 38 {
            Huge::Mm
        } else if i == 39 {
            Huge::Nn
        } else if i == 40 {
            Huge::Oo
        } else if i == 41 {
            Huge::Pp
        } else if i == 42 {
            Huge::Qq
        } else if i == 43 {
            Huge::Rr
        } else if i == 44 {
            Huge::Ss
        } else if i == 45 {
            Huge::Tt
        } else if i == 46 {
            Huge::Uu
        } else if i == 47 {
            Huge::Vv
        } else if i == 48 {
            Huge::Ww
        } else if i == 49 {
            Huge::Xx
        } else if i == 50 {
            Huge::Yy
        } else {
            Huge::Zz
        }
    }

    proof fn lemma_index_in_range(self) {
    }

    proof fn lemma_index_injective(a: Huge, b: Huge) {
    }

    proof fn lemma_key_index(i: int) {
    }

    fn length() -> usize {
        52
    }

    fn into_usize(self) -> usize {
        match self {
            Huge::A => 0,
            Huge::B => 1,
            Huge::C => 2,
            Huge::D => 3,
            Huge::E => 4,
            Huge::F => 5,
            Huge::G => 6,
            Huge::H => 7,
            Huge::I => 8,
            Huge::J => 9,
            Huge::K => 10,
            Huge::L => 11,
            Huge::M => 12,
            Huge::N => 13,
            Huge::O => 14,
            Huge::P => 15,
            Huge::Q => 16,
            Huge::R => 17,
            Huge::S => 18,
            Huge::T => 19,
            Huge::U => 20,
            Huge::V => 21,
            Huge::W => 22,
            Huge::X => 23,
            Huge::Y => 24,
            Huge::Z => 25,
            Huge::Aa => 26,
            Huge::Bb => 27,
            Huge::Cc => 28,
            Huge::Dd => 29,
            Huge::Ee => 30,
            Huge::Ff => 31,
            Huge::Gg => 32,
            Huge::Hh => 33,
            Huge::Ii => 34,
            Huge::Jj => 35,
            Huge::Kk => 36,
            Huge::Ll => 37,
            Huge::Mm => 38,
            Huge::Nn => 39,
            Huge::Oo => 40,
            Huge::Pp => 41,
            Huge::Qq => 42,
            Huge::Rr => 43,
            Huge::Ss => 44,
            Huge::Tt => 45,
            Huge::Uu => 46,
            Huge::Vv => 47,
            Huge::Ww => 48,
            Huge::Xx => 49,
            Huge::Yy => 50,
            Huge::Zz => 51,
        }
    }

    fn from_usize(value: usize) -> Huge {
        if value == 0 {
            Huge::A
        } else if value == 1 {
            Huge::B
        } else if value == 2 {
            Huge::C
        } else if value == 3 {
            Huge::D
        } else if value == 4 {
            Huge::E
        } else if value == 5 {
            Huge::F
        } else if value == 6 {
            Huge::G
        } else if value == 7 {
            Huge::H
        } else if value == 8 {
            Huge::I
        } else if value == 9 {
            Huge::J
        } else if value == 10 {
            Huge::K
        } else if value == 11 {
            Huge::L
        } else if value == 12 {
            Huge::M
        } else if value == 13 {
            Huge::N
        } else if value == 14 {
            Huge::O
        } else if value == 15 {
            Huge::P
        } else if value == 16 {
            Huge::Q
        } else if value == 17 {
            Huge::R
        } else if value == 18 {
            Huge::S
        } else if value == 19 {
            Huge::T
        } else if value == 20 {
            Huge::U
        } else if value == 21 {
            Huge::V
        } else if value == 22 {
            Huge::W
        } else if value == 23 {
            Huge::X
        } else if value == 24 {
            Huge::Y
        } else if value == 25 {
            Huge::Z
        } else if value == 26 {
            Huge::Aa
        } else if value == 27 {
            Huge::Bb
        } else if value == 28 {
            Huge::Cc
        } else if value == 29 {
            Huge::Dd
        } else if value == 30 {
            Huge::Ee
        } else if value == 31 {
            Huge::Ff
        } else if value == 32 {
            Huge::Gg
        } else if value == 33 {
            Huge::Hh
        } else if value == 34 {
            Huge::Ii
        } else if value == 35 {
            Huge::Jj
        } else if value == 36 {
            Huge::Kk
        } else if value == 37 {
            Huge::Ll
        } else if value == 38 {
            Huge::Mm
        } else if value == 39 {
            Huge::Nn
        } else if value == 40 {
            Huge::Oo
        } else if value == 41 {
            Huge::Pp
        } else if value == 42 {
            Huge::Qq
        } else if value == 43 {
            Huge::Rr
        } else if value == 44 {
            Huge::Ss
        } else if value == 45 {
            Huge::Tt
        } else if value == 46 {
            Huge::Uu
        } else if value == 47 {
            Huge::Vv
        } else if value == 48 {
            Huge::Ww
        } else if value == 49 {
            Huge::Xx
        } else if value == 50 {
            Huge::Yy
        } else {
            Huge::Zz
        }
    }
}

} // verus!
