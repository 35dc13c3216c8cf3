//! The layout of version 14 metadata, as a type of the codec.

use crate::value::{shapes, variant_shapes, Shape, TypeDescriptor};
use vstd::prelude::*;

verus! {

/// The shape of an optional value of shape `inner`.
pub open spec fn optional(inner: Shape) -> Shape {
    Shape::Optional(Box::new(inner))
}

/// The shape of a sequence of values of shape `elem`.
pub open spec fn sequence(elem: Shape) -> Shape {
    Shape::Sequence(Box::new(elem))
}

/// The shape of a tagged union of `count` variants without fields.
pub open spec fn plain_variants(count: nat) -> Shape {
    Shape::Variant(Seq::new(count, |i: int| Some(Seq::<Shape>::empty())))
}

/// Documentation lines: a sequence of strings.
pub open spec fn docs_shape() -> Shape {
    sequence(Shape::Bytes)
}

/// A field of a composite or of a variant: name, type, type name, docs.
pub open spec fn field_shape() -> Shape {
    Shape::Tuple(seq![optional(Shape::Bytes), Shape::Compact, optional(Shape::Bytes), docs_shape()])
}

/// A variant of an enum: name, fields, index, docs.
pub open spec fn variant_shape() -> Shape {
    Shape::Tuple(seq![Shape::Bytes, sequence(field_shape()), Shape::Uint(1), docs_shape()])
}

/// A type definition: composite, variant, sequence, array, tuple,
/// primitive, compact, bit sequence.
pub open spec fn type_def_shape() -> Shape {
    Shape::Variant(
        seq![
            Some(seq![sequence(field_shape())]),
            Some(seq![sequence(variant_shape())]),
            Some(seq![Shape::Compact]),
            Some(seq![Shape::Uint(4), Shape::Compact]),
            Some(seq![sequence(Shape::Compact)]),
            Some(seq![plain_variants(15)]),
            Some(seq![Shape::Compact]),
            Some(seq![Shape::Compact, Shape::Compact]),
        ],
    )
}

/// A type parameter: name and, where known, type.
pub open spec fn type_param_shape() -> Shape {
    Shape::Tuple(seq![Shape::Bytes, optional(Shape::Compact)])
}

/// A type: path, parameters, definition, docs.
pub open spec fn type_shape() -> Shape {
    Shape::Tuple(
        seq![sequence(Shape::Bytes), sequence(type_param_shape()), type_def_shape(), docs_shape()],
    )
}

/// An entry of the type registry: id and type.
pub open spec fn type_entry_shape() -> Shape {
    Shape::Tuple(seq![Shape::Compact, type_shape()])
}

/// How a storage entry is addressed: plainly, or as a map with its
/// hashers, key type and value type.
pub open spec fn entry_type_shape() -> Shape {
    Shape::Variant(
        seq![
            Some(seq![Shape::Compact]),
            Some(seq![sequence(plain_variants(7)), Shape::Compact, Shape::Compact]),
        ],
    )
}

/// A storage entry: name, modifier, type, default value, docs.
pub open spec fn storage_entry_shape() -> Shape {
    Shape::Tuple(
        seq![Shape::Bytes, plain_variants(2), entry_type_shape(), Shape::Bytes, docs_shape()],
    )
}

/// The storage of a pallet: prefix and entries.
pub open spec fn storage_shape() -> Shape {
    Shape::Tuple(seq![Shape::Bytes, sequence(storage_entry_shape())])
}

/// A constant of a pallet: name, type, value, docs.
pub open spec fn constant_shape() -> Shape {
    Shape::Tuple(seq![Shape::Bytes, Shape::Compact, Shape::Bytes, docs_shape()])
}

/// A reference to one type, wrapped as the calls, events and errors of a
/// pallet are.
pub open spec fn type_ref_shape() -> Shape {
    Shape::Tuple(seq![Shape::Compact])
}

/// A pallet: name, storage, calls, events, constants, errors, index.
pub open spec fn pallet_shape() -> Shape {
    Shape::Tuple(
        seq![
            Shape::Bytes,
            optional(storage_shape()),
            optional(type_ref_shape()),
            optional(type_ref_shape()),
            sequence(constant_shape()),
            optional(type_ref_shape()),
            Shape::Uint(1),
        ],
    )
}

/// A signed extension: identifier, type, type of what is only signed.
pub open spec fn extension_shape() -> Shape {
    Shape::Tuple(seq![Shape::Bytes, Shape::Compact, Shape::Compact])
}

/// The extrinsic format: type, version, signed extensions.
pub open spec fn extrinsic_shape() -> Shape {
    Shape::Tuple(seq![Shape::Compact, Shape::Uint(1), sequence(extension_shape())])
}

/// Version 14 metadata: type registry, pallets, extrinsic format, runtime
/// type.
pub open spec fn metadata_shape() -> Shape {
    Shape::Tuple(
        seq![
            sequence(type_entry_shape()),
            sequence(pallet_shape()),
            extrinsic_shape(),
            Shape::Compact,
        ],
    )
}

/// The type of an optional value of type `inner`.
fn optional_type(inner: TypeDescriptor) -> (t: TypeDescriptor)
    ensures
        t@ == optional(inner@),
{
    TypeDescriptor::Optional(Box::new(inner))
}

/// The type of a sequence of values of type `elem`.
fn sequence_type(elem: TypeDescriptor) -> (t: TypeDescriptor)
    ensures
        t@ == sequence(elem@),
{
    TypeDescriptor::Sequence(Box::new(elem))
}

/// The type of a tagged union of `count` variants without fields.
fn plain_variants_type(count: usize) -> (t: TypeDescriptor)
    ensures
        t@ == plain_variants(count as nat),
{
    let mut variants: Vec<Option<Vec<TypeDescriptor>>> = Vec::new();
    let mut i: usize = 0;
    while i < count
        invariant
            i <= count,
            variants@.len() == i,
            forall|j: int|
                0 <= j < i ==> (#[trigger] variants@[j]) is Some && variants@[j]->Some_0@.len()
                    == 0,
        decreases count - i,
    {
        variants.push(Some(Vec::new()));
        i = i + 1;
    }
    let t = TypeDescriptor::Variant(variants);
    proof {
        let got = variant_shapes(variants@);
        let want = Seq::new(count as nat, |i: int| Some(Seq::<Shape>::empty()));
        assert forall|j: int| 0 <= j < got.len() implies got[j] == want[j] by {
            assert(got[j]->Some_0 =~= Seq::<Shape>::empty());
        }
        assert(got =~= want);
    }
    t
}

/// The type of the values of the given types, one after the other.
fn tuple_type(members: Vec<TypeDescriptor>) -> (t: TypeDescriptor)
    ensures
        t@ == Shape::Tuple(shapes(members@)),
{
    TypeDescriptor::Tuple(members)
}

/// The type of documentation lines.
fn docs_type() -> (t: TypeDescriptor)
    ensures
        t@ == docs_shape(),
{
    sequence_type(TypeDescriptor::Bytes)
}

/// The type of a field.
fn field_type() -> (t: TypeDescriptor)
    ensures
        t@ == field_shape(),
{
    let members = vec![
        optional_type(TypeDescriptor::Bytes),
        TypeDescriptor::Compact,
        optional_type(TypeDescriptor::Bytes),
        docs_type(),
    ];
    assert(shapes(members@) =~= field_shape()->Tuple_0);
    tuple_type(members)
}

/// The type of a variant of an enum.
fn variant_type() -> (t: TypeDescriptor)
    ensures
        t@ == variant_shape(),
{
    let members = vec![
        TypeDescriptor::Bytes,
        sequence_type(field_type()),
        TypeDescriptor::U8,
        docs_type(),
    ];
    assert(shapes(members@) =~= variant_shape()->Tuple_0);
    tuple_type(members)
}

/// The type of a type definition.
fn type_def_type() -> (t: TypeDescriptor)
    ensures
        t@ == type_def_shape(),
{
    let composite = vec![sequence_type(field_type())];
    let variant = vec![sequence_type(variant_type())];
    let sequence = vec![TypeDescriptor::Compact];
    let array = vec![TypeDescriptor::U32, TypeDescriptor::Compact];
    let tuple = vec![sequence_type(TypeDescriptor::Compact)];
    let primitive = vec![plain_variants_type(15)];
    let compact = vec![TypeDescriptor::Compact];
    let bits = vec![TypeDescriptor::Compact, TypeDescriptor::Compact];
    let ghost want = type_def_shape()->Variant_0;
    proof {
        assert(shapes(composite@) =~= want[0]->Some_0);
        assert(shapes(variant@) =~= want[1]->Some_0);
        assert(shapes(sequence@) =~= want[2]->Some_0);
        assert(shapes(array@) =~= want[3]->Some_0);
        assert(shapes(tuple@) =~= want[4]->Some_0);
        assert(shapes(primitive@) =~= want[5]->Some_0);
        assert(shapes(compact@) =~= want[6]->Some_0);
        assert(shapes(bits@) =~= want[7]->Some_0);
    }
    let variants = vec![
        Some(composite),
        Some(variant),
        Some(sequence),
        Some(array),
        Some(tuple),
        Some(primitive),
        Some(compact),
        Some(bits),
    ];
    assert(variant_shapes(variants@) =~= want);
    TypeDescriptor::Variant(variants)
}

/// The type of a registered type.
fn type_type() -> (t: TypeDescriptor)
    ensures
        t@ == type_shape(),
{
    let param = vec![TypeDescriptor::Bytes, optional_type(TypeDescriptor::Compact)];
    assert(shapes(param@) =~= type_param_shape()->Tuple_0);
    let members = vec![
        sequence_type(TypeDescriptor::Bytes),
        sequence_type(tuple_type(param)),
        type_def_type(),
        docs_type(),
    ];
    assert(shapes(members@) =~= type_shape()->Tuple_0);
    tuple_type(members)
}

/// The type of a storage entry.
fn storage_entry_type() -> (t: TypeDescriptor)
    ensures
        t@ == storage_entry_shape(),
{
    let plain = vec![TypeDescriptor::Compact];
    let map = vec![
        sequence_type(plain_variants_type(7)),
        TypeDescriptor::Compact,
        TypeDescriptor::Compact,
    ];
    let ghost want = entry_type_shape()->Variant_0;
    proof {
        assert(shapes(plain@) =~= want[0]->Some_0);
        assert(shapes(map@) =~= want[1]->Some_0);
    }
    let kinds = vec![Some(plain), Some(map)];
    assert(variant_shapes(kinds@) =~= want);
    let members = vec![
        TypeDescriptor::Bytes,
        plain_variants_type(2),
        TypeDescriptor::Variant(kinds),
        TypeDescriptor::Bytes,
        docs_type(),
    ];
    assert(shapes(members@) =~= storage_entry_shape()->Tuple_0);
    tuple_type(members)
}

/// The type of a wrapped reference to one type.
fn type_ref_type() -> (t: TypeDescriptor)
    ensures
        t@ == type_ref_shape(),
{
    let members = vec![TypeDescriptor::Compact];
    assert(shapes(members@) =~= type_ref_shape()->Tuple_0);
    tuple_type(members)
}

/// The type of a pallet.
fn pallet_type() -> (t: TypeDescriptor)
    ensures
        t@ == pallet_shape(),
{
    let storage = vec![TypeDescriptor::Bytes, sequence_type(storage_entry_type())];
    assert(shapes(storage@) =~= storage_shape()->Tuple_0);
    let constant = vec![
        TypeDescriptor::Bytes,
        TypeDescriptor::Compact,
        TypeDescriptor::Bytes,
        docs_type(),
    ];
    assert(shapes(constant@) =~= constant_shape()->Tuple_0);
    let members = vec![
        TypeDescriptor::Bytes,
        optional_type(tuple_type(storage)),
        optional_type(type_ref_type()),
        optional_type(type_ref_type()),
        sequence_type(tuple_type(constant)),
        optional_type(type_ref_type()),
        TypeDescriptor::U8,
    ];
    assert(shapes(members@) =~= pallet_shape()->Tuple_0);
    tuple_type(members)
}

/// The type of the extrinsic format.
fn extrinsic_type() -> (t: TypeDescriptor)
    ensures
        t@ == extrinsic_shape(),
{
    let extension = vec![TypeDescriptor::Bytes, TypeDescriptor::Compact, TypeDescriptor::Compact];
    assert(shapes(extension@) =~= extension_shape()->Tuple_0);
    let members = vec![
        TypeDescriptor::Compact,
        TypeDescriptor::U8,
        sequence_type(tuple_type(extension)),
    ];
    assert(shapes(members@) =~= extrinsic_shape()->Tuple_0);
    tuple_type(members)
}

/// The type of version 14 metadata.
pub fn metadata_type() -> (t: TypeDescriptor)
    ensures
        t@ == metadata_shape(),
{
    let entry = vec![TypeDescriptor::Compact, type_type()];
    assert(shapes(entry@) =~= type_entry_shape()->Tuple_0);
    let members = vec![
        sequence_type(tuple_type(entry)),
        sequence_type(pallet_type()),
        extrinsic_type(),
        TypeDescriptor::Compact,
    ];
    assert(shapes(members@) =~= metadata_shape()->Tuple_0);
    tuple_type(members)
}

} // verus!
