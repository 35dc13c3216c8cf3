//! The type registry of the metadata: the definition behind each type id.

use crate::pick::{
    as_bytes, as_byte, as_id, as_items, as_tuple, as_variant, as_word, byte_of, bytes_of, id_of,
    items_of, tuple_of, variant_of, word_of,
};
use crate::value::{models, Datum, Value};
use vstd::prelude::*;

verus! {

/// The primitive types.
#[derive(Clone, Copy, Debug, PartialEq, Eq, Structural)]
pub enum Primitive {
    Bool,
    Char,
    Str,
    U8,
    U16,
    U32,
    U64,
    U128,
    U256,
    I8,
    I16,
    I32,
    I64,
    I128,
    I256,
}

/// One variant of an enum: its name, its index on the wire and the types
/// of its fields.
#[derive(Debug, PartialEq, Eq)]
pub struct VariantDef {
    pub name: Vec<u8>,
    pub index: u8,
    pub fields: Vec<u32>,
}

/// The definition of a type.
#[derive(Debug, PartialEq, Eq)]
pub enum TypeDef {
    /// A struct: the types of its fields.
    Composite(Vec<u32>),
    /// An enum: its variants.
    Variant(Vec<VariantDef>),
    /// A sequence of values of one type.
    Sequence(u32),
    /// An array: its length and the type of its elements.
    Array(u32, u32),
    /// A tuple: the types of its members.
    Tuple(Vec<u32>),
    Primitive(Primitive),
    /// A value of the given type, written in compact form.
    Compact(u32),
    /// A sequence of bits: the store type and the order type.
    BitSequence(u32, u32),
}

/// An entry of the registry: a type id and its definition.
#[derive(Debug, PartialEq, Eq)]
pub struct TypeEntry {
    pub id: u32,
    pub def: TypeDef,
}

/// The model of a variant.
pub struct VariantModel {
    pub name: Seq<u8>,
    pub index: u8,
    pub fields: Seq<u32>,
}

/// The model of a type definition.
pub enum TypeDefModel {
    Composite(Seq<u32>),
    Variant(Seq<VariantModel>),
    Sequence(u32),
    Array(u32, u32),
    Tuple(Seq<u32>),
    Primitive(Primitive),
    Compact(u32),
    BitSequence(u32, u32),
}

/// The model of an entry of the registry.
pub struct TypeEntryModel {
    pub id: u32,
    pub def: TypeDefModel,
}

impl View for VariantDef {
    type V = VariantModel;

    open spec fn view(&self) -> VariantModel {
        VariantModel { name: self.name@, index: self.index, fields: self.fields@ }
    }
}

/// The models of the variants of a list, in order.
pub open spec fn variant_models(variants: Seq<VariantDef>) -> Seq<VariantModel> {
    Seq::new(variants.len(), |i: int| variants[i]@)
}

impl View for TypeDef {
    type V = TypeDefModel;

    open spec fn view(&self) -> TypeDefModel {
        match *self {
            TypeDef::Composite(fields) => TypeDefModel::Composite(fields@),
            TypeDef::Variant(variants) => TypeDefModel::Variant(variant_models(variants@)),
            TypeDef::Sequence(elem) => TypeDefModel::Sequence(elem),
            TypeDef::Array(len, elem) => TypeDefModel::Array(len, elem),
            TypeDef::Tuple(members) => TypeDefModel::Tuple(members@),
            TypeDef::Primitive(p) => TypeDefModel::Primitive(p),
            TypeDef::Compact(inner) => TypeDefModel::Compact(inner),
            TypeDef::BitSequence(store, order) => TypeDefModel::BitSequence(store, order),
        }
    }
}

impl View for TypeEntry {
    type V = TypeEntryModel;

    open spec fn view(&self) -> TypeEntryModel {
        TypeEntryModel { id: self.id, def: self.def@ }
    }
}

/// The models of the entries of a list, in order.
pub open spec fn entry_models(entries: Seq<TypeEntry>) -> Seq<TypeEntryModel> {
    Seq::new(entries.len(), |i: int| entries[i]@)
}

/// The type ids that a list of compact integers holds.
pub open spec fn ids_of(items: Seq<Datum>) -> Option<Seq<u32>> {
    if forall|i: int| 0 <= i < items.len() ==> id_of(#[trigger] items[i]) is Some {
        Some(Seq::new(items.len(), |i: int| id_of(items[i])->Some_0))
    } else {
        None
    }
}

/// The type of a field: the second of its four parts.
pub open spec fn field_type_of(d: Datum) -> Option<u32> {
    match tuple_of(d, 4) {
        Some(parts) => id_of(parts[1]),
        None => None,
    }
}

/// The types of the fields of a list.
pub open spec fn field_types_of(items: Seq<Datum>) -> Option<Seq<u32>> {
    if forall|i: int| 0 <= i < items.len() ==> field_type_of(#[trigger] items[i]) is Some {
        Some(Seq::new(items.len(), |i: int| field_type_of(items[i])->Some_0))
    } else {
        None
    }
}

/// The variant that a decoded variant description stands for: name,
/// fields, index, docs.
pub open spec fn variant_def_of(d: Datum) -> Option<VariantModel> {
    match tuple_of(d, 4) {
        Some(parts) => match (bytes_of(parts[0]), items_of(parts[1]), byte_of(parts[2])) {
            (Some(name), Some(fields), Some(index)) => match field_types_of(fields) {
                Some(types) => Some(VariantModel { name, index, fields: types }),
                None => None,
            },
            _ => None,
        },
        None => None,
    }
}

/// The variants of a list.
pub open spec fn variant_defs_of(items: Seq<Datum>) -> Option<Seq<VariantModel>> {
    if forall|i: int| 0 <= i < items.len() ==> variant_def_of(#[trigger] items[i]) is Some {
        Some(Seq::new(items.len(), |i: int| variant_def_of(items[i])->Some_0))
    } else {
        None
    }
}

/// The primitive type with the given index.
pub open spec fn primitive_of(index: u8) -> Option<Primitive> {
    if index == 0 {
        Some(Primitive::Bool)
    } else if index == 1 {
        Some(Primitive::Char)
    } else if index == 2 {
        Some(Primitive::Str)
    } else if index == 3 {
        Some(Primitive::U8)
    } else if index == 4 {
        Some(Primitive::U16)
    } else if index == 5 {
        Some(Primitive::U32)
    } else if index == 6 {
        Some(Primitive::U64)
    } else if index == 7 {
        Some(Primitive::U128)
    } else if index == 8 {
        Some(Primitive::U256)
    } else if index == 9 {
        Some(Primitive::I8)
    } else if index == 10 {
        Some(Primitive::I16)
    } else if index == 11 {
        Some(Primitive::I32)
    } else if index == 12 {
        Some(Primitive::I64)
    } else if index == 13 {
        Some(Primitive::I128)
    } else if index == 14 {
        Some(Primitive::I256)
    } else {
        None
    }
}

/// The definition that a decoded type definition stands for.
pub open spec fn type_def_of(d: Datum) -> Option<TypeDefModel> {
    match variant_of(d) {
        None => None,
        Some((index, fields)) => if index == 0 && fields.len() == 1 {
            match items_of(fields[0]) {
                Some(items) => match field_types_of(items) {
                    Some(types) => Some(TypeDefModel::Composite(types)),
                    None => None,
                },
                None => None,
            }
        } else if index == 1 && fields.len() == 1 {
            match items_of(fields[0]) {
                Some(items) => match variant_defs_of(items) {
                    Some(variants) => Some(TypeDefModel::Variant(variants)),
                    None => None,
                },
                None => None,
            }
        } else if index == 2 && fields.len() == 1 {
            match id_of(fields[0]) {
                Some(elem) => Some(TypeDefModel::Sequence(elem)),
                None => None,
            }
        } else if index == 3 && fields.len() == 2 {
            match (word_of(fields[0]), id_of(fields[1])) {
                (Some(len), Some(elem)) => Some(TypeDefModel::Array(len, elem)),
                _ => None,
            }
        } else if index == 4 && fields.len() == 1 {
            match items_of(fields[0]) {
                Some(items) => match ids_of(items) {
                    Some(members) => Some(TypeDefModel::Tuple(members)),
                    None => None,
                },
                None => None,
            }
        } else if index == 5 && fields.len() == 1 {
            match variant_of(fields[0]) {
                Some((which, _)) => match primitive_of(which) {
                    Some(p) => Some(TypeDefModel::Primitive(p)),
                    None => None,
                },
                None => None,
            }
        } else if index == 6 && fields.len() == 1 {
            match id_of(fields[0]) {
                Some(inner) => Some(TypeDefModel::Compact(inner)),
                None => None,
            }
        } else if index == 7 && fields.len() == 2 {
            match (id_of(fields[0]), id_of(fields[1])) {
                (Some(store), Some(order)) => Some(TypeDefModel::BitSequence(store, order)),
                _ => None,
            }
        } else {
            None
        },
    }
}

/// The entry that a decoded registry entry stands for: its id, and the
/// definition that is the third of the four parts of its type.
pub open spec fn type_entry_of(d: Datum) -> Option<TypeEntryModel> {
    match tuple_of(d, 2) {
        Some(parts) => match (id_of(parts[0]), tuple_of(parts[1], 4)) {
            (Some(id), Some(ty)) => match type_def_of(ty[2]) {
                Some(def) => Some(TypeEntryModel { id, def }),
                None => None,
            },
            _ => None,
        },
        None => None,
    }
}

/// The entries of a list.
pub open spec fn type_entries_of(items: Seq<Datum>) -> Option<Seq<TypeEntryModel>> {
    if forall|i: int| 0 <= i < items.len() ==> type_entry_of(#[trigger] items[i]) is Some {
        Some(Seq::new(items.len(), |i: int| type_entry_of(items[i])->Some_0))
    } else {
        None
    }
}

/// The type ids that a list of compact integers holds.
pub fn read_ids(items: &Vec<Value>) -> (r: Option<Vec<u32>>)
    ensures
        match ids_of(models(items@)) {
            Some(ids) => r is Some && r->Some_0@ == ids,
            None => r is None,
        },
{
    let n: usize = items.len();
    let ghost ds = models(items@);
    let mut out: Vec<u32> = Vec::new();
    let mut i: usize = 0;
    while i < n
        invariant
            i <= n,
            n == items@.len(),
            ds == models(items@),
            out@.len() == i,
            forall|j: int| 0 <= j < i ==> id_of(#[trigger] ds[j]) == Some(out@[j]),
        decreases n - i,
    {
        match as_id(&items[i]) {
            None => {
                assert(id_of(ds[i as int]) is None);
                return None;
            },
            Some(id) => {
                out.push(id);
            },
        }
        i = i + 1;
    }
    assert(out@ =~= ids_of(ds)->Some_0);
    Some(out)
}

/// The type of a field.
pub fn read_field_type(v: &Value) -> (r: Option<u32>)
    ensures
        r == field_type_of(v@),
{
    match as_tuple(v, 4) {
        Some(parts) => as_id(&parts[1]),
        None => None,
    }
}

/// The types of the fields of a list.
pub fn read_field_types(items: &Vec<Value>) -> (r: Option<Vec<u32>>)
    ensures
        match field_types_of(models(items@)) {
            Some(ids) => r is Some && r->Some_0@ == ids,
            None => r is None,
        },
{
    let n: usize = items.len();
    let ghost ds = models(items@);
    let mut out: Vec<u32> = Vec::new();
    let mut i: usize = 0;
    while i < n
        invariant
            i <= n,
            n == items@.len(),
            ds == models(items@),
            out@.len() == i,
            forall|j: int| 0 <= j < i ==> field_type_of(#[trigger] ds[j]) == Some(out@[j]),
        decreases n - i,
    {
        match read_field_type(&items[i]) {
            None => {
                assert(field_type_of(ds[i as int]) is None);
                return None;
            },
            Some(id) => {
                out.push(id);
            },
        }
        i = i + 1;
    }
    assert(out@ =~= field_types_of(ds)->Some_0);
    Some(out)
}

/// The variant that a decoded variant description stands for.
pub fn read_variant_def(v: &Value) -> (r: Option<VariantDef>)
    ensures
        match variant_def_of(v@) {
            Some(model) => r is Some && r->Some_0@ == model,
            None => r is None,
        },
{
    let parts = match as_tuple(v, 4) {
        Some(parts) => parts,
        None => {
            return None;
        },
    };
    let name = match as_bytes(&parts[0]) {
        Some(name) => name,
        None => {
            return None;
        },
    };
    let fields = match as_items(&parts[1]) {
        Some(fields) => fields,
        None => {
            return None;
        },
    };
    let index: u8 = match as_byte(&parts[2]) {
        Some(index) => index,
        None => {
            return None;
        },
    };
    match read_field_types(fields) {
        Some(types) => Some(VariantDef { name: name.clone(), index, fields: types }),
        None => None,
    }
}

/// The variants of a list.
pub fn read_variant_defs(items: &Vec<Value>) -> (r: Option<Vec<VariantDef>>)
    ensures
        match variant_defs_of(models(items@)) {
            Some(defs) => r is Some && variant_models(r->Some_0@) == defs,
            None => r is None,
        },
{
    let n: usize = items.len();
    let ghost ds = models(items@);
    let mut out: Vec<VariantDef> = Vec::new();
    let mut i: usize = 0;
    while i < n
        invariant
            i <= n,
            n == items@.len(),
            ds == models(items@),
            out@.len() == i,
            forall|j: int| 0 <= j < i ==> variant_def_of(#[trigger] ds[j]) == Some(out@[j]@),
        decreases n - i,
    {
        match read_variant_def(&items[i]) {
            None => {
                assert(variant_def_of(ds[i as int]) is None);
                return None;
            },
            Some(def) => {
                out.push(def);
            },
        }
        i = i + 1;
    }
    assert(variant_models(out@) =~= variant_defs_of(ds)->Some_0);
    Some(out)
}

/// The primitive type with the given index.
pub fn read_primitive(index: u8) -> (r: Option<Primitive>)
    ensures
        r == primitive_of(index),
{
    if index == 0 {
        Some(Primitive::Bool)
    } else if index == 1 {
        Some(Primitive::Char)
    } else if index == 2 {
        Some(Primitive::Str)
    } else if index == 3 {
        Some(Primitive::U8)
    } else if index == 4 {
        Some(Primitive::U16)
    } else if index == 5 {
        Some(Primitive::U32)
    } else if index == 6 {
        Some(Primitive::U64)
    } else if index == 7 {
        Some(Primitive::U128)
    } else if index == 8 {
        Some(Primitive::U256)
    } else if index == 9 {
        Some(Primitive::I8)
    } else if index == 10 {
        Some(Primitive::I16)
    } else if index == 11 {
        Some(Primitive::I32)
    } else if index == 12 {
        Some(Primitive::I64)
    } else if index == 13 {
        Some(Primitive::I128)
    } else if index == 14 {
        Some(Primitive::I256)
    } else {
        None
    }
}

/// The definition that a decoded type definition stands for.
pub fn read_type_def(v: &Value) -> (r: Option<TypeDef>)
    ensures
        match type_def_of(v@) {
            Some(model) => r is Some && r->Some_0@ == model,
            None => r is None,
        },
{
    let (index, fields) = match as_variant(v) {
        Some(pair) => pair,
        None => {
            return None;
        },
    };
    assert(models(fields@).len() == fields@.len());
    let count: usize = fields.len();
    if index == 0 && count == 1 {
        match as_items(&fields[0]) {
            Some(items) => match read_field_types(items) {
                Some(types) => Some(TypeDef::Composite(types)),
                None => None,
            },
            None => None,
        }
    } else if index == 1 && count == 1 {
        match as_items(&fields[0]) {
            Some(items) => match read_variant_defs(items) {
                Some(variants) => Some(TypeDef::Variant(variants)),
                None => None,
            },
            None => None,
        }
    } else if index == 2 && count == 1 {
        match as_id(&fields[0]) {
            Some(elem) => Some(TypeDef::Sequence(elem)),
            None => None,
        }
    } else if index == 3 && count == 2 {
        match (as_word(&fields[0]), as_id(&fields[1])) {
            (Some(len), Some(elem)) => Some(TypeDef::Array(len, elem)),
            _ => None,
        }
    } else if index == 4 && count == 1 {
        match as_items(&fields[0]) {
            Some(items) => match read_ids(items) {
                Some(members) => Some(TypeDef::Tuple(members)),
                None => None,
            },
            None => None,
        }
    } else if index == 5 && count == 1 {
        match as_variant(&fields[0]) {
            Some((which, _)) => match read_primitive(which) {
                Some(p) => Some(TypeDef::Primitive(p)),
                None => None,
            },
            None => None,
        }
    } else if index == 6 && count == 1 {
        match as_id(&fields[0]) {
            Some(inner) => Some(TypeDef::Compact(inner)),
            None => None,
        }
    } else if index == 7 && count == 2 {
        match (as_id(&fields[0]), as_id(&fields[1])) {
            (Some(store), Some(order)) => Some(TypeDef::BitSequence(store, order)),
            _ => None,
        }
    } else {
        None
    }
}

/// The entry that a decoded registry entry stands for.
pub fn read_type_entry(v: &Value) -> (r: Option<TypeEntry>)
    ensures
        match type_entry_of(v@) {
            Some(model) => r is Some && r->Some_0@ == model,
            None => r is None,
        },
{
    let parts = match as_tuple(v, 2) {
        Some(parts) => parts,
        None => {
            return None;
        },
    };
    let id: u32 = match as_id(&parts[0]) {
        Some(id) => id,
        None => {
            return None;
        },
    };
    let ty = match as_tuple(&parts[1], 4) {
        Some(ty) => ty,
        None => {
            return None;
        },
    };
    match read_type_def(&ty[2]) {
        Some(def) => Some(TypeEntry { id, def }),
        None => None,
    }
}

/// The entries of a list.
pub fn read_type_entries(items: &Vec<Value>) -> (r: Option<Vec<TypeEntry>>)
    ensures
        match type_entries_of(models(items@)) {
            Some(entries) => r is Some && entry_models(r->Some_0@) == entries,
            None => r is None,
        },
{
    let n: usize = items.len();
    let ghost ds = models(items@);
    let mut out: Vec<TypeEntry> = Vec::new();
    let mut i: usize = 0;
    while i < n
        invariant
            i <= n,
            n == items@.len(),
            ds == models(items@),
            out@.len() == i,
            forall|j: int| 0 <= j < i ==> type_entry_of(#[trigger] ds[j]) == Some(out@[j]@),
        decreases n - i,
    {
        match read_type_entry(&items[i]) {
            None => {
                assert(type_entry_of(ds[i as int]) is None);
                return None;
            },
            Some(entry) => {
                out.push(entry);
            },
        }
        i = i + 1;
    }
    assert(entry_models(out@) =~= type_entries_of(ds)->Some_0);
    Some(out)
}

} // verus!
