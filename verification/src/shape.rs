//! Derivation of a key numbering from the shape of an enumeration.
//!
//! A [`Shape`] describes a finite enumeration: an ordered list of variants,
//! each carrying no fields or an ordered list of field shapes, themselves
//! shapes — nesting to any depth. From the shape alone this module derives
//! the whole numbering: the cardinality, the encoding of a [`Key`] (a chosen
//! variant with values for its fields) to an index, and the decoding of an
//! index back to a key.
//!
//! Variants own contiguous index ranges in declaration order: a variant's
//! range begins where the previous variant's range ends, so a unit variant
//! takes one index and a composite variant takes as many as its fields can
//! express. Within a composite variant the fields form a mixed-radix number,
//! little-endian: the first declared field varies fastest with weight one,
//! and each later field's weight is the product of the cardinalities of the
//! fields before it. Nothing else enters the derivation — in particular no
//! language-level discriminant values, which a shape cannot even carry.

use vstd::prelude::*;

use vstd::arithmetic::div_mod::lemma_fundamental_div_mod;
use vstd::arithmetic::div_mod::lemma_multiply_divide_lt;

verus! {

/// The shape of a finite enumeration: its variants, in declaration order.
///
/// A shape with no variants describes an uninhabited enumeration: its
/// cardinality is zero and no key conforms to it.
#[derive(Debug, PartialEq, Eq)]
#[verifier::ext_equal]
pub struct Shape {
    /// The variants, in declaration order.
    pub variants: Vec<VariantShape>,
}

/// One variant of an enumeration's shape.
#[derive(Debug, PartialEq, Eq)]
#[verifier::ext_equal]
pub enum VariantShape {
    /// A variant with no fields, holding exactly one value.
    Unit,
    /// A variant with an ordered list of fields, each a finite enumeration
    /// itself; it holds one value per combination of field values.
    Fields(Vec<Shape>),
}

/// One value of an enumeration described by a [`Shape`]: which variant it
/// is, and a key for each of that variant's fields, in field order.
#[derive(Debug, PartialEq, Eq)]
#[verifier::ext_equal]
pub struct Key {
    /// The position of the chosen variant in declaration order.
    pub variant: usize,
    /// A key for each field of the chosen variant, in field order.
    pub fields: KeyList,
}

/// An ordered list of field keys.
#[derive(Debug, PartialEq, Eq)]
#[verifier::ext_equal]
pub enum KeyList {
    /// No further field keys.
    Nil,
    /// A field key followed by the keys of the remaining fields.
    Cons(Box<Key>, Box<KeyList>),
}

/// The number of values a shape describes: the sum of its variants'
/// cardinalities.
pub open spec fn shape_card(s: Shape) -> nat
    decreases s,
{
    variants_card(s.variants@)
}

/// The combined cardinality of a list of variants.
pub open spec fn variants_card(vs: Seq<VariantShape>) -> nat
    decreases vs,
{
    if vs.len() == 0 {
        0
    } else {
        variant_card(vs[0]) + variants_card(vs.skip(1))
    }
}

/// The number of values one variant holds: one for a unit variant, the
/// product of the field cardinalities otherwise.
pub open spec fn variant_card(v: VariantShape) -> nat
    decreases v,
{
    match v {
        VariantShape::Unit => 1,
        VariantShape::Fields(fs) => fields_card(fs@),
    }
}

/// The product of the cardinalities of a list of field shapes; one for an
/// empty list.
pub open spec fn fields_card(fs: Seq<Shape>) -> nat
    decreases fs,
{
    if fs.len() == 0 {
        1
    } else {
        shape_card(fs[0]) * fields_card(fs.skip(1))
    }
}

/// Where variant `j`'s index range begins: the combined cardinality of the
/// variants declared before it.
pub open spec fn base_of(vs: Seq<VariantShape>, j: int) -> nat
    decreases j,
{
    if j <= 0 {
        0
    } else {
        base_of(vs, j - 1) + variant_card(vs[j - 1])
    }
}

/// Whether `k` is a value of the enumeration described by `s`: its variant
/// exists and its field keys fit that variant.
pub open spec fn key_valid(s: Shape, k: Key) -> bool
    decreases s,
{
    k.variant < s.variants@.len() && variant_key_valid(s.variants@[k.variant as int], k.fields)
}

/// Whether `ks` supplies exactly the field keys that variant `v` needs.
pub open spec fn variant_key_valid(v: VariantShape, ks: KeyList) -> bool
    decreases v,
{
    match v {
        VariantShape::Unit => ks is Nil,
        VariantShape::Fields(fs) => fields_key_valid(fs@, ks),
    }
}

/// Whether `ks` supplies one valid key per field shape, in order.
pub open spec fn fields_key_valid(fs: Seq<Shape>, ks: KeyList) -> bool
    decreases fs,
{
    match ks {
        KeyList::Nil => fs.len() == 0,
        KeyList::Cons(k0, rest) => fs.len() > 0 && key_valid(fs[0], *k0) && fields_key_valid(
            fs.skip(1),
            *rest,
        ),
    }
}

/// The index of key `k` within shape `s`: the start of its variant's range,
/// plus the mixed-radix value of its field keys.
pub open spec fn key_code(s: Shape, k: Key) -> nat
    recommends
        key_valid(s, k),
    decreases s,
{
    if k.variant < s.variants@.len() {
        base_of(s.variants@, k.variant as int) + variant_code(
            s.variants@[k.variant as int],
            k.fields,
        )
    } else {
        0
    }
}

/// The offset of a variant's key within the variant's own index range.
pub open spec fn variant_code(v: VariantShape, ks: KeyList) -> nat
    recommends
        variant_key_valid(v, ks),
    decreases v,
{
    match v {
        VariantShape::Unit => 0,
        VariantShape::Fields(fs) => fields_code(fs@, ks),
    }
}

/// The mixed-radix, little-endian value of a list of field keys: the first
/// field counts with weight one, the remaining fields with weight equal to
/// the first field's cardinality.
pub open spec fn fields_code(fs: Seq<Shape>, ks: KeyList) -> nat
    recommends
        fields_key_valid(fs, ks),
    decreases fs,
{
    if fs.len() == 0 {
        0
    } else {
        match ks {
            KeyList::Nil => 0,
            KeyList::Cons(k0, rest) => key_code(fs[0], *k0) + shape_card(fs[0]) * fields_code(
                fs.skip(1),
                *rest,
            ),
        }
    }
}

/// Extending the base by one variant adds exactly that variant's
/// cardinality, seen from the front of the list.
pub proof fn lemma_base_shift(vs: Seq<VariantShape>, t: int)
    requires
        0 <= t < vs.len(),
    ensures
        base_of(vs, t + 1) == variant_card(vs[0]) + base_of(vs.skip(1), t),
    decreases t,
{
    if t > 0 {
        lemma_base_shift(vs, t - 1);
        assert(vs.skip(1)[t - 1] == vs[t]);
    } else {
        assert(base_of(vs, 0) == 0);
        assert(base_of(vs.skip(1), 0) == 0);
    }
}

/// The variants before position `j` and the variants from position `j` on
/// together account for the whole cardinality.
pub proof fn lemma_base_plus_suffix(vs: Seq<VariantShape>, j: int)
    requires
        0 <= j <= vs.len(),
    ensures
        base_of(vs, j) + variants_card(vs.skip(j)) == variants_card(vs),
    decreases j,
{
    if j == 0 {
        assert(vs.skip(0) =~= vs);
    } else {
        lemma_base_plus_suffix(vs, j - 1);
        assert(vs.skip(j - 1)[0] == vs[j - 1]);
        assert(vs.skip(j - 1).skip(1) =~= vs.skip(j));
    }
}

/// Bases never decrease along the variant list.
pub proof fn lemma_base_monotone(vs: Seq<VariantShape>, a: int, b: int)
    requires
        0 <= a <= b,
    ensures
        base_of(vs, a) <= base_of(vs, b),
    decreases b - a,
{
    if a < b {
        lemma_base_monotone(vs, a, b - 1);
    }
}

/// A valid key's index falls inside its shape's cardinality.
pub proof fn lemma_code_in_range(s: Shape, k: Key)
    requires
        key_valid(s, k),
    ensures
        key_code(s, k) < shape_card(s),
    decreases s,
{
    let vs = s.variants@;
    let j = k.variant as int;
    lemma_variant_code_in_range(vs[j], k.fields);
    lemma_base_plus_suffix(vs, j);
    assert(vs.skip(j)[0] == vs[j]);
}

/// A valid variant key's offset falls inside the variant's cardinality.
pub proof fn lemma_variant_code_in_range(v: VariantShape, ks: KeyList)
    requires
        variant_key_valid(v, ks),
    ensures
        variant_code(v, ks) < variant_card(v),
    decreases v,
{
    match v {
        VariantShape::Unit => {
        },
        VariantShape::Fields(fs) => {
            lemma_fields_code_in_range(fs@, ks);
        },
    }
}

/// A valid list of field keys encodes below the product of the field
/// cardinalities.
pub proof fn lemma_fields_code_in_range(fs: Seq<Shape>, ks: KeyList)
    requires
        fields_key_valid(fs, ks),
    ensures
        fields_code(fs, ks) < fields_card(fs),
    decreases fs,
{
    match ks {
        KeyList::Nil => {
        },
        KeyList::Cons(k0, rest) => {
            lemma_code_in_range(fs[0], *k0);
            lemma_fields_code_in_range(fs.skip(1), *rest);
            let a = key_code(fs[0], *k0);
            let c = shape_card(fs[0]);
            let b = fields_code(fs.skip(1), *rest);
            let d = fields_card(fs.skip(1));
            assert(a < c && b < d ==> a + c * b < c * d) by (nonlinear_arith);
        },
    }
}

/// Two valid keys with the same index are the same key: the numbering never
/// reuses an index.
pub proof fn lemma_code_injective(s: Shape, k1: Key, k2: Key)
    requires
        key_valid(s, k1),
        key_valid(s, k2),
        key_code(s, k1) == key_code(s, k2),
    ensures
        k1 == k2,
    decreases s,
{
    let vs = s.variants@;
    let j1 = k1.variant as int;
    let j2 = k2.variant as int;
    lemma_variant_code_in_range(vs[j1], k1.fields);
    lemma_variant_code_in_range(vs[j2], k2.fields);
    if j1 < j2 {
        lemma_base_shift_contained(vs, j1, j2);
    } else if j2 < j1 {
        lemma_base_shift_contained(vs, j2, j1);
    } else {
        lemma_variant_code_injective(vs[j1], k1.fields, k2.fields);
        assert(k1 =~= k2);
    }
}

/// Distinct variants own disjoint index ranges: a key of an earlier variant
/// always encodes strictly below where a later variant's range begins.
pub proof fn lemma_base_shift_contained(vs: Seq<VariantShape>, a: int, b: int)
    requires
        0 <= a < b,
    ensures
        base_of(vs, a) + variant_card(vs[a]) <= base_of(vs, b),
{
    lemma_base_monotone(vs, a + 1, b);
}

/// Within one variant, two valid field-key lists with the same offset are
/// the same list.
pub proof fn lemma_variant_code_injective(v: VariantShape, ks1: KeyList, ks2: KeyList)
    requires
        variant_key_valid(v, ks1),
        variant_key_valid(v, ks2),
        variant_code(v, ks1) == variant_code(v, ks2),
    ensures
        ks1 == ks2,
    decreases v,
{
    match v {
        VariantShape::Unit => {
        },
        VariantShape::Fields(fs) => {
            lemma_fields_code_injective(fs@, ks1, ks2);
        },
    }
}

/// Two valid field-key lists with the same mixed-radix value are equal,
/// field by field.
pub proof fn lemma_fields_code_injective(fs: Seq<Shape>, ks1: KeyList, ks2: KeyList)
    requires
        fields_key_valid(fs, ks1),
        fields_key_valid(fs, ks2),
        fields_code(fs, ks1) == fields_code(fs, ks2),
    ensures
        ks1 == ks2,
    decreases fs,
{
    match ks1 {
        KeyList::Nil => {
        },
        KeyList::Cons(k1, rest1) => {
            match ks2 {
                KeyList::Nil => {
                },
                KeyList::Cons(k2, rest2) => {
                    lemma_code_in_range(fs[0], *k1);
                    lemma_code_in_range(fs[0], *k2);
                    let c = shape_card(fs[0]);
                    let a1 = key_code(fs[0], *k1);
                    let a2 = key_code(fs[0], *k2);
                    let b1 = fields_code(fs.skip(1), *rest1);
                    let b2 = fields_code(fs.skip(1), *rest2);
                    assert(a1 < c && a2 < c && a1 + c * b1 == a2 + c * b2 ==> a1 == a2 && b1 == b2)
                        by (nonlinear_arith);
                    lemma_code_injective(fs[0], *k1, *k2);
                    lemma_fields_code_injective(fs.skip(1), *rest1, *rest2);
                },
            }
        },
    }
}

/// Every index below the cardinality is taken by some valid key: together
/// with [`lemma_code_in_range`] and [`lemma_code_injective`], the set of
/// indices of the valid keys is exactly `0..N`, with no gaps and no
/// duplicates.
pub proof fn lemma_code_surjective(s: Shape, i: int)
    requires
        0 <= i < shape_card(s),
    ensures
        exists|k: Key| key_valid(s, k) && key_code(s, k) == i,
    decreases s,
{
    let vs = s.variants@;
    lemma_variants_surjective(vs, i);
    let (j, ks) = choose|j: int, ks: KeyList|
        0 <= j < vs.len() && variant_key_valid(vs[j], ks) && base_of(vs, j) + variant_code(
            vs[j],
            ks,
        ) == i;
    vstd::std_specs::vec::axiom_spec_len(&s.variants);
    let k = Key { variant: j as usize, fields: ks };
    assert(key_valid(s, k) && key_code(s, k) == i);
}

/// Every index below the combined cardinality of a variant list falls in
/// exactly one variant's range and is taken there.
pub proof fn lemma_variants_surjective(vs: Seq<VariantShape>, i: int)
    requires
        0 <= i < variants_card(vs),
    ensures
        exists|j: int, ks: KeyList|
            0 <= j < vs.len() && variant_key_valid(vs[j], ks) && base_of(vs, j) + variant_code(
                vs[j],
                ks,
            ) == i,
    decreases vs,
{
    let c0 = variant_card(vs[0]);
    if i < c0 {
        lemma_variant_surjective(vs[0], i);
        let ks = choose|ks: KeyList|
            variant_key_valid(vs[0], ks) && variant_code(vs[0], ks) == i;
        assert(base_of(vs, 0) == 0);
        assert(0 <= 0 < vs.len() && variant_key_valid(vs[0], ks) && base_of(vs, 0) + variant_code(
            vs[0],
            ks,
        ) == i);
    } else {
        lemma_variants_surjective(vs.skip(1), i - c0);
        let (j, ks) = choose|j: int, ks: KeyList|
            0 <= j < vs.skip(1).len() && variant_key_valid(vs.skip(1)[j], ks) && base_of(
                vs.skip(1),
                j,
            ) + variant_code(vs.skip(1)[j], ks) == i - c0;
        lemma_base_shift(vs, j);
        assert(vs.skip(1)[j] == vs[j + 1]);
        assert(0 <= j + 1 < vs.len() && variant_key_valid(vs[j + 1], ks) && base_of(vs, j + 1)
            + variant_code(vs[j + 1], ks) == i);
    }
}

/// Every offset below a variant's cardinality is taken by some valid list
/// of field keys.
pub proof fn lemma_variant_surjective(v: VariantShape, i: int)
    requires
        0 <= i < variant_card(v),
    ensures
        exists|ks: KeyList| variant_key_valid(v, ks) && variant_code(v, ks) == i,
    decreases v,
{
    match v {
        VariantShape::Unit => {
            assert(variant_key_valid(v, KeyList::Nil) && variant_code(v, KeyList::Nil) == 0);
        },
        VariantShape::Fields(fs) => {
            lemma_fields_surjective(fs@, i);
            let ks = choose|ks: KeyList|
                fields_key_valid(fs@, ks) && fields_code(fs@, ks) == i;
            assert(variant_key_valid(v, ks) && variant_code(v, ks) == i);
        },
    }
}

/// Every value below the product of the field cardinalities is the
/// mixed-radix value of some valid list of field keys.
pub proof fn lemma_fields_surjective(fs: Seq<Shape>, i: int)
    requires
        0 <= i < fields_card(fs),
    ensures
        exists|ks: KeyList| fields_key_valid(fs, ks) && fields_code(fs, ks) == i,
    decreases fs,
{
    if fs.len() == 0 {
        assert(fields_key_valid(fs, KeyList::Nil) && fields_code(fs, KeyList::Nil) == 0);
    } else {
        let c = shape_card(fs[0]) as int;
        let d = fields_card(fs.skip(1)) as int;
        assert(c > 0 && d > 0) by {
            assert(c == 0 ==> c * d == 0) by (nonlinear_arith);
            assert(d == 0 ==> c * d == 0) by (nonlinear_arith);
        }
        let i0 = i % c;
        let i1 = i / c;
        lemma_fundamental_div_mod(i, c);
        lemma_multiply_divide_lt(i, c, d);
        lemma_code_surjective(fs[0], i0);
        lemma_fields_surjective(fs.skip(1), i1);
        let k0 = choose|k: Key| key_valid(fs[0], k) && key_code(fs[0], k) == i0;
        let rest = choose|ks: KeyList|
            fields_key_valid(fs.skip(1), ks) && fields_code(fs.skip(1), ks) == i1;
        let ks = KeyList::Cons(Box::new(k0), Box::new(rest));
        assert(fields_key_valid(fs, ks));
        assert(fields_code(fs, ks) == i0 + c * i1);
        assert(fields_key_valid(fs, ks) && fields_code(fs, ks) == i);
    }
}

/// The set of indices the valid keys of a shape encode to is exactly
/// `{0, .., N - 1}`: no gaps, and — by [`lemma_code_injective`] — no
/// duplicates.
pub proof fn lemma_code_image(s: Shape)
    ensures
        Set::new(|i: int| exists|k: Key| key_valid(s, k) && key_code(s, k) == i) =~= Set::new(
            |i: int| 0 <= i < shape_card(s),
        ),
{
    let image = Set::new(|i: int| exists|k: Key| key_valid(s, k) && key_code(s, k) == i);
    let range = Set::new(|i: int| 0 <= i < shape_card(s));
    assert forall|i: int| #[trigger] image.contains(i) implies range.contains(i) by {
        let k = choose|k: Key| key_valid(s, k) && key_code(s, k) == i;
        lemma_code_in_range(s, k);
    }
    assert forall|i: int| #[trigger] range.contains(i) implies image.contains(i) by {
        lemma_code_surjective(s, i);
    }
    assert(image =~= range);
}

/// The weight of field `t` in the mixed-radix encoding: the product of the
/// cardinalities of the fields declared before it. The first field's weight
/// is one.
pub open spec fn weight_of(fs: Seq<Shape>, t: int) -> nat
    decreases t,
{
    if t <= 0 {
        1
    } else {
        weight_of(fs, t - 1) * shape_card(fs[t - 1])
    }
}

/// A shape's cardinality is the sum, over its variants in declaration
/// order, of each variant's own cardinality: `base_of` at the end of the
/// list is exactly that running sum.
pub proof fn lemma_cardinality_additive(s: Shape)
    ensures
        shape_card(s) == base_of(s.variants@, s.variants@.len() as int),
{
    lemma_base_plus_suffix(s.variants@, s.variants@.len() as int);
    assert(s.variants@.skip(s.variants@.len() as int) =~= Seq::<VariantShape>::empty());
}

/// The fields before position `t` and the fields from position `t` on
/// multiply out to the whole product.
pub proof fn lemma_weight_times_suffix(fs: Seq<Shape>, t: int)
    requires
        0 <= t <= fs.len(),
    ensures
        weight_of(fs, t) * fields_card(fs.skip(t)) == fields_card(fs),
    decreases t,
{
    if t == 0 {
        assert(fs.skip(0) =~= fs);
        assert(weight_of(fs, 0) == 1);
        assert(weight_of(fs, 0) * fields_card(fs.skip(0)) == fields_card(fs));
    } else {
        lemma_weight_times_suffix(fs, t - 1);
        assert(fs.skip(t - 1)[0] == fs[t - 1]);
        assert(fs.skip(t - 1).skip(1) =~= fs.skip(t));
        let w = weight_of(fs, t - 1);
        let c = shape_card(fs[t - 1]);
        let r = fields_card(fs.skip(t));
        assert(fields_card(fs.skip(t - 1)) == c * r);
        assert(w * (c * r) == fields_card(fs));
        assert((w * c) * r == w * (c * r)) by (nonlinear_arith);
        assert(weight_of(fs, t) == w * c);
        assert(weight_of(fs, t) * fields_card(fs.skip(t)) == fields_card(fs));
    }
}

/// A composite variant's cardinality is the product of its fields'
/// cardinalities: `weight_of` at the end of the field list is exactly that
/// running product.
pub proof fn lemma_cardinality_multiplicative(fs: Seq<Shape>)
    ensures
        fields_card(fs) == weight_of(fs, fs.len() as int),
{
    lemma_weight_times_suffix(fs, fs.len() as int);
    assert(fs.skip(fs.len() as int) =~= Seq::<Shape>::empty());
    assert(fields_card(Seq::<Shape>::empty()) == 1);
    assert(weight_of(fs, fs.len() as int) * 1 == weight_of(fs, fs.len() as int));
}

/// The number of values the shape describes, when that number fits the
/// machine's index type; the cardinality of a composite shape can exceed
/// it, and is then reported as absent rather than wrong.
pub fn cardinality(s: &Shape) -> (r: Option<usize>)
    ensures
        r matches Some(c) ==> c == shape_card(*s),
        r is None ==> shape_card(*s) > usize::MAX,
    decreases *s, 0nat,
{
    proof {
        assert(s.variants@.skip(0) =~= s.variants@);
    }
    variants_cardinality(&s.variants, 0)
}

/// The combined cardinality of the variants from position `from` on.
fn variants_cardinality(vs: &Vec<VariantShape>, from: usize) -> (r: Option<usize>)
    requires
        from <= vs@.len(),
    ensures
        r matches Some(c) ==> c == variants_card(vs@.skip(from as int)),
        r is None ==> variants_card(vs@.skip(from as int)) > usize::MAX,
    decreases *vs, vs@.len() - from,
{
    if from == vs.len() {
        proof {
            assert(vs@.skip(from as int) =~= Seq::<VariantShape>::empty());
        }
        Some(0)
    } else {
        let head = variant_cardinality(&vs[from]);
        let rest = variants_cardinality(vs, from + 1);
        proof {
            assert(vs@.skip(from as int)[0] == vs@[from as int]);
            assert(vs@.skip(from as int).skip(1) =~= vs@.skip(from as int + 1));
        }
        match (head, rest) {
            (Some(h), Some(t)) => h.checked_add(t),
            _ => None,
        }
    }
}

/// The cardinality of one variant.
fn variant_cardinality(v: &VariantShape) -> (r: Option<usize>)
    ensures
        r matches Some(c) ==> c == variant_card(*v),
        r is None ==> variant_card(*v) > usize::MAX,
    decreases *v, 0nat,
{
    match v {
        VariantShape::Unit => Some(1),
        VariantShape::Fields(fs) => {
            proof {
                assert(fs@.skip(0) =~= fs@);
            }
            fields_cardinality(fs, 0)
        },
    }
}

/// The product of the cardinalities of the fields from position `from` on.
/// A factor of zero makes the product zero no matter how large the other
/// factors are, so an oversized factor alone does not decide the outcome.
fn fields_cardinality(fs: &Vec<Shape>, from: usize) -> (r: Option<usize>)
    requires
        from <= fs@.len(),
    ensures
        r matches Some(c) ==> c == fields_card(fs@.skip(from as int)),
        r is None ==> fields_card(fs@.skip(from as int)) > usize::MAX,
    decreases *fs, fs@.len() - from,
{
    if from == fs.len() {
        proof {
            assert(fs@.skip(from as int) =~= Seq::<Shape>::empty());
        }
        Some(1)
    } else {
        let head = cardinality(&fs[from]);
        let rest = fields_cardinality(fs, from + 1);
        proof {
            assert(fs@.skip(from as int)[0] == fs@[from as int]);
            assert(fs@.skip(from as int).skip(1) =~= fs@.skip(from as int + 1));
        }
        let ghost hc = shape_card(fs@[from as int]);
        let ghost tc = fields_card(fs@.skip(from as int + 1));
        match (head, rest) {
            (Some(h), Some(t)) => h.checked_mul(t),
            (Some(h), None) => {
                if h == 0 {
                    proof {
                        assert(hc * tc == 0) by (nonlinear_arith)
                            requires
                                hc == 0,
                        ;
                    }
                    Some(0)
                } else {
                    proof {
                        assert(hc * tc >= tc) by (nonlinear_arith)
                            requires
                                hc >= 1,
                                tc >= 0,
                        ;
                    }
                    None
                }
            },
            (None, Some(t)) => {
                if t == 0 {
                    proof {
                        assert(hc * tc == 0) by (nonlinear_arith)
                            requires
                                tc == 0,
                        ;
                    }
                    Some(0)
                } else {
                    proof {
                        assert(hc * tc >= hc) by (nonlinear_arith)
                            requires
                                tc >= 1,
                                hc >= 0,
                        ;
                    }
                    None
                }
            },
            (None, None) => {
                proof {
                    assert(hc * tc >= hc) by (nonlinear_arith)
                        requires
                            tc >= 1,
                            hc >= 0,
                    ;
                }
                None
            },
        }
    }
}

/// The index of a valid key within its shape: where the key's variant's
/// range begins, plus the mixed-radix value of its field keys. The result
/// always lies below the shape's cardinality.
pub fn encode(s: &Shape, k: &Key) -> (r: usize)
    requires
        key_valid(*s, *k),
        shape_card(*s) <= usize::MAX,
    ensures
        r == key_code(*s, *k),
        r < shape_card(*s),
    decreases *s, 0nat,
{
    proof {
        lemma_code_in_range(*s, *k);
    }
    let j = k.variant;
    let mut base: usize = 0;
    let mut t: usize = 0;
    while t < j
        invariant
            key_valid(*s, *k),
            shape_card(*s) <= usize::MAX,
            j == k.variant,
            t <= j,
            base == base_of(s.variants@, t as int),
            base <= shape_card(*s),
        decreases j - t,
    {
        let c_opt = variant_cardinality(&s.variants[t]);
        proof {
            lemma_base_plus_suffix(s.variants@, t as int + 1);
            assert(base_of(s.variants@, t as int + 1) == base_of(s.variants@, t as int)
                + variant_card(s.variants@[t as int]));
        }
        let c = c_opt.unwrap();
        base = base + c;
        t = t + 1;
    }
    proof {
        lemma_variant_code_in_range(s.variants@[j as int], k.fields);
        lemma_base_plus_suffix(s.variants@, j as int + 1);
        assert(base_of(s.variants@, j as int + 1) == base_of(s.variants@, j as int)
            + variant_card(s.variants@[j as int]));
    }
    match &s.variants[j] {
        VariantShape::Unit => base,
        VariantShape::Fields(fs) => {
            proof {
                assert(fs@.skip(0) =~= fs@);
            }
            let offset = encode_fields(fs, 0, &k.fields);
            base + offset
        },
    }
}

/// The mixed-radix value of the field keys for the fields from position
/// `from` on: the key of field `from` counts with weight one, the keys of
/// the later fields with weight equal to that field's cardinality.
fn encode_fields(fs: &Vec<Shape>, from: usize, ks: &KeyList) -> (r: usize)
    requires
        from <= fs@.len(),
        fields_key_valid(fs@.skip(from as int), *ks),
        fields_card(fs@.skip(from as int)) <= usize::MAX,
    ensures
        r == fields_code(fs@.skip(from as int), *ks),
        r < fields_card(fs@.skip(from as int)),
    decreases *fs, fs@.len() - from,
{
    match ks {
        KeyList::Nil => 0,
        KeyList::Cons(k0, rest) => {
            proof {
                vstd::std_specs::vec::axiom_spec_len(fs);
                assert(fs@.skip(from as int)[0] == fs@[from as int]);
                assert(fs@.skip(from as int).skip(1) =~= fs@.skip(from as int + 1));
                lemma_code_in_range(fs@[from as int], **k0);
                lemma_fields_code_in_range(fs@.skip(from as int + 1), **rest);
                let c = shape_card(fs@[from as int]);
                let d = fields_card(fs@.skip(from as int + 1));
                assert(c >= 1 && d >= 1 && c * d <= usize::MAX ==> c <= usize::MAX && d
                    <= usize::MAX) by (nonlinear_arith);
            }
            let c = cardinality(&fs[from]).unwrap();
            let a = encode(&fs[from], k0);
            let b = encode_fields(fs, from + 1, rest);
            proof {
                let c_s = shape_card(fs@[from as int]);
                let d_s = fields_card(fs@.skip(from as int + 1));
                assert(a < c_s && b < d_s && c_s * d_s <= usize::MAX ==> a + c_s * b < c_s * d_s)
                    by (nonlinear_arith);
                assert(fields_card(fs@.skip(from as int)) == c_s * d_s);
                assert(a + c_s * b < c_s * d_s);
            }
            a + c * b
        },
    }
}

/// The unique key that owns `index`: scans the variant ranges in
/// declaration order for the one containing `index`, then reconstructs the
/// fields from the offset's mixed-radix digits. Re-encoding the result
/// yields `index` again, and since the numbering never reuses an index,
/// no other valid key encodes to it.
pub fn decode(s: &Shape, index: usize) -> (r: Key)
    requires
        shape_card(*s) <= usize::MAX,
        index < shape_card(*s),
    ensures
        key_valid(*s, r),
        key_code(*s, r) == index,
    decreases *s, 0nat,
{
    proof {
        assert(s.variants@.skip(0) =~= s.variants@);
        assert(base_of(s.variants@, 0) == 0);
    }
    decode_in(&s.variants, 0, index)
}

/// Finds the variant whose range holds `index`, searching from position
/// `from` with `index` counted from where that position's range begins.
fn decode_in(vs: &Vec<VariantShape>, from: usize, index: usize) -> (r: Key)
    requires
        from <= vs@.len(),
        variants_card(vs@.skip(from as int)) <= usize::MAX,
        index < variants_card(vs@.skip(from as int)),
    ensures
        from <= r.variant < vs@.len(),
        variant_key_valid(vs@[r.variant as int], r.fields),
        base_of(vs@, r.variant as int) + variant_code(vs@[r.variant as int], r.fields) == base_of(
            vs@,
            from as int,
        ) + index,
    decreases *vs, vs@.len() - from,
{
    proof {
        vstd::std_specs::vec::axiom_spec_len(vs);
        assert(vs@.skip(from as int)[0] == vs@[from as int]);
        assert(vs@.skip(from as int).skip(1) =~= vs@.skip(from as int + 1));
    }
    let c = variant_cardinality(&vs[from]).unwrap();
    if index < c {
        let fields = decode_variant(&vs[from], index);
        Key { variant: from, fields }
    } else {
        proof {
            assert(base_of(vs@, from as int + 1) == base_of(vs@, from as int) + variant_card(
                vs@[from as int],
            ));
        }
        decode_in(vs, from + 1, index - c)
    }
}

/// Reconstructs the field keys of one variant from an offset inside the
/// variant's own range.
fn decode_variant(v: &VariantShape, index: usize) -> (r: KeyList)
    requires
        variant_card(*v) <= usize::MAX,
        index < variant_card(*v),
    ensures
        variant_key_valid(*v, r),
        variant_code(*v, r) == index,
    decreases *v, 0nat,
{
    match v {
        VariantShape::Unit => KeyList::Nil,
        VariantShape::Fields(fs) => {
            proof {
                assert(fs@.skip(0) =~= fs@);
            }
            decode_fields(fs, 0, index)
        },
    }
}

/// Reconstructs one key per field from position `from` on: the digit of
/// field `from` is the offset modulo that field's cardinality, and the
/// remaining fields decode from the quotient.
fn decode_fields(fs: &Vec<Shape>, from: usize, index: usize) -> (r: KeyList)
    requires
        from <= fs@.len(),
        fields_card(fs@.skip(from as int)) <= usize::MAX,
        index < fields_card(fs@.skip(from as int)),
    ensures
        fields_key_valid(fs@.skip(from as int), r),
        fields_code(fs@.skip(from as int), r) == index,
    decreases *fs, fs@.len() - from,
{
    if from == fs.len() {
        proof {
            assert(fs@.skip(from as int) =~= Seq::<Shape>::empty());
        }
        KeyList::Nil
    } else {
        proof {
            vstd::std_specs::vec::axiom_spec_len(fs);
            assert(fs@.skip(from as int)[0] == fs@[from as int]);
            assert(fs@.skip(from as int).skip(1) =~= fs@.skip(from as int + 1));
            let c_s = shape_card(fs@[from as int]);
            let d_s = fields_card(fs@.skip(from as int + 1));
            assert(fields_card(fs@.skip(from as int)) == c_s * d_s);
            assert(c_s * d_s > 0 ==> c_s >= 1 && d_s >= 1) by (nonlinear_arith);
            assert(c_s >= 1 && d_s >= 1 ==> c_s <= c_s * d_s && d_s <= c_s * d_s)
                by (nonlinear_arith);
        }
        let c = cardinality(&fs[from]).unwrap();
        let i0 = index % c;
        let i1 = index / c;
        proof {
            let d_s = fields_card(fs@.skip(from as int + 1));
            lemma_fundamental_div_mod(index as int, c as int);
            lemma_multiply_divide_lt(index as int, c as int, d_s as int);
        }
        let k0 = decode(&fs[from], i0);
        let rest = decode_fields(fs, from + 1, i1);
        let r = KeyList::Cons(Box::new(k0), Box::new(rest));
        proof {
            assert(fields_code(fs@.skip(from as int), r) == key_code(fs@[from as int], k0)
                + shape_card(fs@[from as int]) * fields_code(fs@.skip(from as int + 1), rest));
        }
        r
    }
}

} // verus!

