//! Values, the types that describe them, and their mathematical models.

use vstd::prelude::*;

verus! {

/// A value of the codec.
#[derive(Debug, PartialEq, Eq)]
pub enum Value {
    U8(u8),
    U16(u16),
    U32(u32),
    U64(u64),
    U128(u128),
    I8(i8),
    I16(i16),
    I32(i32),
    I64(i64),
    I128(i128),
    Bool(bool),
    /// An unsigned integer written in compact form.
    Compact(u128),
    /// A byte sequence, written with its length in front.
    Bytes(Vec<u8>),
    /// A byte array whose length belongs to its type.
    Array(Vec<u8>),
    /// A sequence of values of one type, written with its length in front.
    Sequence(Vec<Value>),
    /// Values of given types, one after the other.
    Tuple(Vec<Value>),
    /// One variant of a tagged union: its index and its fields.
    Variant(u8, Vec<Value>),
    /// A value that may be absent.
    Optional(Option<Box<Value>>),
}

/// The type of a value: what a decoder has to know to read one.
#[derive(Debug, PartialEq, Eq)]
pub enum TypeDescriptor {
    U8,
    U16,
    U32,
    U64,
    U128,
    I8,
    I16,
    I32,
    I64,
    I128,
    Bool,
    Compact,
    Bytes,
    /// A byte array of the given length.
    Array(u32),
    Sequence(Box<TypeDescriptor>),
    Tuple(Vec<TypeDescriptor>),
    /// The variants by index: at place `i` the types of the fields of the
    /// variant whose index is `i`, or `None` where no variant has that
    /// index.
    Variant(Vec<Option<Vec<TypeDescriptor>>>),
    Optional(Box<TypeDescriptor>),
}

/// The model of a value.
pub enum Datum {
    /// An unsigned integer of `width` bytes.
    Uint { width: nat, value: nat },
    /// A signed integer of `width` bytes.
    Sint { width: nat, number: int },
    Bool(bool),
    Compact(nat),
    Bytes(Seq<u8>),
    Array(Seq<u8>),
    Sequence(Seq<Datum>),
    Tuple(Seq<Datum>),
    Variant { index: nat, fields: Seq<Datum> },
    Optional(Option<Box<Datum>>),
}

/// The model of a type descriptor.
pub enum Shape {
    Uint(nat),
    Sint(nat),
    Bool,
    Compact,
    Bytes,
    Array(nat),
    Sequence(Box<Shape>),
    Tuple(Seq<Shape>),
    Variant(Seq<Option<Seq<Shape>>>),
    Optional(Box<Shape>),
}

impl Value {
    /// The model of this value.
    pub open spec fn model(self) -> Datum
        decreases self,
    {
        match self {
            Value::U8(x) => Datum::Uint { width: 1, value: x as nat },
            Value::U16(x) => Datum::Uint { width: 2, value: x as nat },
            Value::U32(x) => Datum::Uint { width: 4, value: x as nat },
            Value::U64(x) => Datum::Uint { width: 8, value: x as nat },
            Value::U128(x) => Datum::Uint { width: 16, value: x as nat },
            Value::I8(x) => Datum::Sint { width: 1, number: x as int },
            Value::I16(x) => Datum::Sint { width: 2, number: x as int },
            Value::I32(x) => Datum::Sint { width: 4, number: x as int },
            Value::I64(x) => Datum::Sint { width: 8, number: x as int },
            Value::I128(x) => Datum::Sint { width: 16, number: x as int },
            Value::Bool(b) => Datum::Bool(b),
            Value::Compact(n) => Datum::Compact(n as nat),
            Value::Bytes(b) => Datum::Bytes(b@),
            Value::Array(b) => Datum::Array(b@),
            Value::Sequence(items) => Datum::Sequence(models(items@)),
            Value::Tuple(items) => Datum::Tuple(models(items@)),
            Value::Variant(index, fields) => Datum::Variant {
                index: index as nat,
                fields: models(fields@),
            },
            Value::Optional(None) => Datum::Optional(None),
            Value::Optional(Some(inner)) => Datum::Optional(Some(Box::new(inner.model()))),
        }
    }
}

/// The models of the values of a list, in order.
pub open spec fn models(items: Seq<Value>) -> Seq<Datum>
    decreases items,
{
    Seq::new(
        items.len(),
        |i: int|
            if 0 <= i < items.len() {
                items[i].model()
            } else {
                Datum::Bool(false)
            },
    )
}

impl View for Value {
    type V = Datum;

    open spec fn view(&self) -> Datum {
        self.model()
    }
}

impl TypeDescriptor {
    /// The model of this descriptor.
    pub open spec fn model(self) -> Shape
        decreases self,
    {
        match self {
            TypeDescriptor::U8 => Shape::Uint(1),
            TypeDescriptor::U16 => Shape::Uint(2),
            TypeDescriptor::U32 => Shape::Uint(4),
            TypeDescriptor::U64 => Shape::Uint(8),
            TypeDescriptor::U128 => Shape::Uint(16),
            TypeDescriptor::I8 => Shape::Sint(1),
            TypeDescriptor::I16 => Shape::Sint(2),
            TypeDescriptor::I32 => Shape::Sint(4),
            TypeDescriptor::I64 => Shape::Sint(8),
            TypeDescriptor::I128 => Shape::Sint(16),
            TypeDescriptor::Bool => Shape::Bool,
            TypeDescriptor::Compact => Shape::Compact,
            TypeDescriptor::Bytes => Shape::Bytes,
            TypeDescriptor::Array(n) => Shape::Array(n as nat),
            TypeDescriptor::Sequence(elem) => Shape::Sequence(Box::new(elem.model())),
            TypeDescriptor::Tuple(members) => Shape::Tuple(shapes(members@)),
            TypeDescriptor::Variant(variants) => Shape::Variant(variant_shapes(variants@)),
            TypeDescriptor::Optional(inner) => Shape::Optional(Box::new(inner.model())),
        }
    }
}

/// The models of the descriptors of a list, in order.
pub open spec fn shapes(members: Seq<TypeDescriptor>) -> Seq<Shape>
    decreases members,
{
    Seq::new(
        members.len(),
        |i: int|
            if 0 <= i < members.len() {
                members[i].model()
            } else {
                Shape::Bool
            },
    )
}

/// The models of the variants of a tagged union, by index.
pub open spec fn variant_shapes(variants: Seq<Option<Vec<TypeDescriptor>>>) -> Seq<
    Option<Seq<Shape>>,
>
    decreases variants,
{
    Seq::new(
        variants.len(),
        |i: int|
            if 0 <= i < variants.len() {
                match variants[i] {
                    Some(members) => Some(shapes(members@)),
                    None => None,
                }
            } else {
                None
            },
    )
}

impl View for TypeDescriptor {
    type V = Shape;

    open spec fn view(&self) -> Shape {
        self.model()
    }
}

} // verus!
