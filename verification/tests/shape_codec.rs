use enum_map::shape::{cardinality, decode, encode, Key, KeyList, Shape, VariantShape};

fn unit_key(variant: usize) -> Key {
    Key { variant, fields: KeyList::Nil }
}

fn one_field_key(variant: usize, field: Key) -> Key {
    Key { variant, fields: KeyList::Cons(Box::new(field), Box::new(KeyList::Nil)) }
}

fn two_field_key(variant: usize, first: Key, second: Key) -> Key {
    Key {
        variant,
        fields: KeyList::Cons(
            Box::new(first),
            Box::new(KeyList::Cons(Box::new(second), Box::new(KeyList::Nil))),
        ),
    }
}

/// Two unit variants: the shape of a boolean.
fn flag_shape() -> Shape {
    Shape { variants: vec![VariantShape::Unit, VariantShape::Unit] }
}

/// Three unit variants.
fn trio_shape() -> Shape {
    Shape { variants: vec![VariantShape::Unit, VariantShape::Unit, VariantShape::Unit] }
}

/// A unit variant followed by a variant carrying one boolean-shaped field:
/// the shape of an optional boolean.
fn option_flag_shape() -> Shape {
    Shape { variants: vec![VariantShape::Unit, VariantShape::Fields(vec![flag_shape()])] }
}

#[test]
fn cardinality_sums_variants_and_multiplies_fields() {
    assert_eq!(cardinality(&Shape { variants: vec![] }), Some(0));
    assert_eq!(cardinality(&flag_shape()), Some(2));
    assert_eq!(cardinality(&option_flag_shape()), Some(3));
    // One unit variant plus one variant of two fields with two and three
    // values each: 1 + 2 * 3.
    let composite = Shape {
        variants: vec![
            VariantShape::Unit,
            VariantShape::Fields(vec![flag_shape(), trio_shape()]),
        ],
    };
    assert_eq!(cardinality(&composite), Some(7));
}

#[test]
fn zero_variant_shape_is_empty() {
    let empty = Shape { variants: vec![] };
    assert_eq!(cardinality(&empty), Some(0));
}

#[test]
fn nested_shape_cardinality() {
    // A field may itself be composite: a variant carrying an optional
    // boolean and a boolean has 3 * 2 values.
    let nested = Shape {
        variants: vec![VariantShape::Fields(vec![option_flag_shape(), flag_shape()])],
    };
    assert_eq!(cardinality(&nested), Some(6));
}

#[test]
fn round_trip_from_index() {
    let shapes = vec![
        flag_shape(),
        trio_shape(),
        option_flag_shape(),
        Shape {
            variants: vec![
                VariantShape::Unit,
                VariantShape::Fields(vec![flag_shape(), trio_shape()]),
                VariantShape::Fields(vec![option_flag_shape()]),
            ],
        },
    ];
    for shape in &shapes {
        let n = cardinality(shape).unwrap();
        for i in 0..n {
            let key = decode(shape, i);
            assert_eq!(encode(shape, &key), i);
        }
    }
}

#[test]
fn round_trip_from_key() {
    let shape = option_flag_shape();
    let keys = vec![
        unit_key(0),
        one_field_key(1, unit_key(0)),
        one_field_key(1, unit_key(1)),
    ];
    for key in &keys {
        let i = encode(&shape, key);
        assert_eq!(&decode(&shape, i), key);
    }
}

#[test]
fn encode_covers_all_indices_exactly() {
    let shape = option_flag_shape();
    let mut indices = vec![
        encode(&shape, &unit_key(0)),
        encode(&shape, &one_field_key(1, unit_key(0))),
        encode(&shape, &one_field_key(1, unit_key(1))),
    ];
    indices.sort();
    assert_eq!(indices, vec![0, 1, 2]);
}

#[test]
fn variants_take_contiguous_ranges_in_declaration_order() {
    // First variant: two values at 0 and 1; second variant: one value at 2.
    let shape = Shape {
        variants: vec![VariantShape::Fields(vec![flag_shape()]), VariantShape::Unit],
    };
    assert_eq!(encode(&shape, &one_field_key(0, unit_key(0))), 0);
    assert_eq!(encode(&shape, &one_field_key(0, unit_key(1))), 1);
    assert_eq!(encode(&shape, &unit_key(1)), 2);
}

#[test]
fn first_field_varies_fastest() {
    // One variant of two fields with cardinalities 2 and 3: the index is
    // first + 2 * second, so index 5 decodes to (1, 2).
    let shape = Shape { variants: vec![VariantShape::Fields(vec![flag_shape(), trio_shape()])] };
    assert_eq!(cardinality(&shape), Some(6));
    assert_eq!(encode(&shape, &two_field_key(0, unit_key(1), unit_key(0))), 1);
    assert_eq!(encode(&shape, &two_field_key(0, unit_key(0), unit_key(1))), 2);
    let key = decode(&shape, 5);
    assert_eq!(key, two_field_key(0, unit_key(1), unit_key(2)));
}
