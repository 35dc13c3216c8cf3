//! Taking decoded values apart: each function looks for one form of value
//! and says `None` of any other.

use crate::value::{models, Datum, Value};
use vstd::prelude::*;

verus! {

/// The fields of a tuple of `n` fields.
pub open spec fn tuple_of(d: Datum, n: nat) -> Option<Seq<Datum>> {
    match d {
        Datum::Tuple(fields) => if fields.len() == n {
            Some(fields)
        } else {
            None
        },
        _ => None,
    }
}

/// The items of a sequence.
pub open spec fn items_of(d: Datum) -> Option<Seq<Datum>> {
    match d {
        Datum::Sequence(items) => Some(items),
        _ => None,
    }
}

/// The bytes of a byte sequence.
pub open spec fn bytes_of(d: Datum) -> Option<Seq<u8>> {
    match d {
        Datum::Bytes(bytes) => Some(bytes),
        _ => None,
    }
}

/// The number of a compact integer that fits 32 bits.
pub open spec fn id_of(d: Datum) -> Option<u32> {
    match d {
        Datum::Compact(n) => if n <= 0xffff_ffff {
            Some(n as u32)
        } else {
            None
        },
        _ => None,
    }
}

/// The number of an unsigned 8-bit integer.
pub open spec fn byte_of(d: Datum) -> Option<u8> {
    match d {
        Datum::Uint { width, value } => if width == 1 && value <= 0xff {
            Some(value as u8)
        } else {
            None
        },
        _ => None,
    }
}

/// The number of an unsigned 32-bit integer.
pub open spec fn word_of(d: Datum) -> Option<u32> {
    match d {
        Datum::Uint { width, value } => if width == 4 && value <= 0xffff_ffff {
            Some(value as u32)
        } else {
            None
        },
        _ => None,
    }
}

/// The index and the fields of a variant.
pub open spec fn variant_of(d: Datum) -> Option<(u8, Seq<Datum>)> {
    match d {
        Datum::Variant { index, fields } => if index <= 0xff {
            Some((index as u8, fields))
        } else {
            None
        },
        _ => None,
    }
}

/// What an optional value holds.
pub open spec fn optional_of(d: Datum) -> Option<Option<Datum>> {
    match d {
        Datum::Optional(None) => Some(None),
        Datum::Optional(Some(inner)) => Some(Some(*inner)),
        _ => None,
    }
}

/// The fields of a tuple of `n` fields.
pub fn as_tuple(v: &Value, n: usize) -> (r: Option<&Vec<Value>>)
    ensures
        match tuple_of(v@, n as nat) {
            Some(fields) => r is Some && models(r->Some_0@) == fields && r->Some_0@.len() == n,
            None => r is None,
        },
{
    match v {
        Value::Tuple(fields) => {
            assert(models(fields@).len() == fields@.len());
            if fields.len() == n {
                Some(fields)
            } else {
                None
            }
        },
        _ => None,
    }
}

/// The items of a sequence.
pub fn as_items(v: &Value) -> (r: Option<&Vec<Value>>)
    ensures
        match items_of(v@) {
            Some(items) => r is Some && models(r->Some_0@) == items,
            None => r is None,
        },
{
    match v {
        Value::Sequence(items) => Some(items),
        _ => None,
    }
}

/// The bytes of a byte sequence.
pub fn as_bytes(v: &Value) -> (r: Option<&Vec<u8>>)
    ensures
        match bytes_of(v@) {
            Some(bytes) => r is Some && r->Some_0@ == bytes,
            None => r is None,
        },
{
    match v {
        Value::Bytes(bytes) => Some(bytes),
        _ => None,
    }
}

/// The number of a compact integer that fits 32 bits.
pub fn as_id(v: &Value) -> (r: Option<u32>)
    ensures
        r == id_of(v@),
{
    match v {
        Value::Compact(n) => if *n <= 0xffff_ffff {
            Some(*n as u32)
        } else {
            None
        },
        _ => None,
    }
}

/// The number of an unsigned 8-bit integer.
pub fn as_byte(v: &Value) -> (r: Option<u8>)
    ensures
        r == byte_of(v@),
{
    match v {
        Value::U8(x) => Some(*x),
        _ => None,
    }
}

/// The number of an unsigned 32-bit integer.
pub fn as_word(v: &Value) -> (r: Option<u32>)
    ensures
        r == word_of(v@),
{
    match v {
        Value::U32(x) => Some(*x),
        _ => None,
    }
}

/// The index and the fields of a variant.
pub fn as_variant(v: &Value) -> (r: Option<(u8, &Vec<Value>)>)
    ensures
        match variant_of(v@) {
            Some((index, fields)) => r is Some && r->Some_0.0 == index && models(r->Some_0.1@)
                == fields,
            None => r is None,
        },
{
    match v {
        Value::Variant(index, fields) => Some((*index, fields)),
        _ => None,
    }
}

/// What an optional value holds.
pub fn as_optional(v: &Value) -> (r: Option<Option<&Value>>)
    ensures
        match optional_of(v@) {
            Some(Some(inner)) => r is Some && r->Some_0 is Some && r->Some_0->Some_0@ == inner,
            Some(None) => r == Some(None::<&Value>),
            None => r is None,
        },
{
    match v {
        Value::Optional(None) => Some(None),
        Value::Optional(Some(inner)) => Some(Some(inner)),
        _ => None,
    }
}

} // verus!
