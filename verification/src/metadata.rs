//! Chain metadata: the pallets with their calls and storage, the signed
//! extensions and the type registry, read from the bytes that a node hands
//! out and looked up by name.

use crate::codec::{decode_at, decoding};
use crate::error::{DecodeError, MetadataError};
use crate::hasher::StorageHasher;
use crate::layout::{metadata_shape, metadata_type};
use crate::lookup::{entry_ids, find_type, id_position};
use crate::pick::{
    as_byte, as_bytes, as_id, as_items, as_optional, as_tuple, as_variant, byte_of, bytes_of,
    id_of, items_of, optional_of, tuple_of, variant_of,
};
use crate::registry::{
    entry_models, read_type_entries, type_entries_of, TypeEntry, TypeEntryModel,
};
use crate::value::{models, Datum, Value};
use vstd::prelude::*;

verus! {

/// The version of the metadata format that this library reads.
pub const SUPPORTED_VERSION: u8 = 14;

/// One item of a pallet's storage.
#[derive(Debug, PartialEq, Eq)]
pub struct StorageEntry {
    pub name: Vec<u8>,
    /// One strategy per map key; none for a plain item.
    pub hashers: Vec<StorageHasher>,
    /// The type of the keys; `None` for a plain item.
    pub key: Option<u32>,
    /// The type of the value.
    pub value: u32,
}

/// One constant of a pallet.
#[derive(Debug, PartialEq, Eq)]
pub struct Constant {
    pub name: Vec<u8>,
    /// The type of the value.
    pub ty: u32,
    /// The value, as it is written.
    pub value: Vec<u8>,
}

/// One pallet of the runtime.
#[derive(Debug, PartialEq, Eq)]
pub struct Pallet {
    pub name: Vec<u8>,
    /// The index that stands for the pallet on the wire.
    pub index: u8,
    /// The type of the pallet's calls: an enum with one variant per call.
    pub calls: Option<u32>,
    /// The type of the pallet's events.
    pub events: Option<u32>,
    /// The type of the pallet's errors.
    pub errors: Option<u32>,
    pub constants: Vec<Constant>,
    /// The name under which the pallet's storage is addressed; empty where
    /// the pallet has no storage.
    pub prefix: Vec<u8>,
    pub storage: Vec<StorageEntry>,
}

/// One signed extension of the extrinsic format.
#[derive(Debug, PartialEq, Eq)]
pub struct SignedExtension {
    pub identifier: Vec<u8>,
    /// The type of what travels with the call.
    pub ty: u32,
    /// The type of what is only signed.
    pub additional_signed: u32,
}

/// The metadata of a runtime.
#[derive(Debug, PartialEq, Eq)]
pub struct Metadata {
    pub types: Vec<TypeEntry>,
    pub pallets: Vec<Pallet>,
    pub extrinsic_version: u8,
    pub extensions: Vec<SignedExtension>,
}

/// The model of a storage item.
pub struct StorageEntryModel {
    pub name: Seq<u8>,
    pub hashers: Seq<StorageHasher>,
    pub key: Option<u32>,
    pub value: u32,
}

/// The model of a constant.
pub struct ConstantModel {
    pub name: Seq<u8>,
    pub ty: u32,
    pub value: Seq<u8>,
}

/// The model of a pallet.
pub struct PalletModel {
    pub name: Seq<u8>,
    pub index: u8,
    pub calls: Option<u32>,
    pub events: Option<u32>,
    pub errors: Option<u32>,
    pub constants: Seq<ConstantModel>,
    pub prefix: Seq<u8>,
    pub storage: Seq<StorageEntryModel>,
}

/// The model of a signed extension.
pub struct ExtensionModel {
    pub identifier: Seq<u8>,
    pub ty: u32,
    pub additional_signed: u32,
}

/// The model of the metadata.
pub struct MetadataModel {
    pub types: Seq<TypeEntryModel>,
    pub pallets: Seq<PalletModel>,
    pub extrinsic_version: u8,
    pub extensions: Seq<ExtensionModel>,
}

impl View for StorageEntry {
    type V = StorageEntryModel;

    open spec fn view(&self) -> StorageEntryModel {
        StorageEntryModel {
            name: self.name@,
            hashers: self.hashers@,
            key: self.key,
            value: self.value,
        }
    }
}

/// The models of the storage items of a list, in order.
pub open spec fn storage_models(entries: Seq<StorageEntry>) -> Seq<StorageEntryModel> {
    Seq::new(entries.len(), |i: int| entries[i]@)
}

impl View for Constant {
    type V = ConstantModel;

    open spec fn view(&self) -> ConstantModel {
        ConstantModel { name: self.name@, ty: self.ty, value: self.value@ }
    }
}

/// The models of the constants of a list, in order.
pub open spec fn constant_models(constants: Seq<Constant>) -> Seq<ConstantModel> {
    Seq::new(constants.len(), |i: int| constants[i]@)
}

impl View for Pallet {
    type V = PalletModel;

    open spec fn view(&self) -> PalletModel {
        PalletModel {
            name: self.name@,
            index: self.index,
            calls: self.calls,
            events: self.events,
            errors: self.errors,
            constants: constant_models(self.constants@),
            prefix: self.prefix@,
            storage: storage_models(self.storage@),
        }
    }
}

/// The models of the pallets of a list, in order.
pub open spec fn pallet_models(pallets: Seq<Pallet>) -> Seq<PalletModel> {
    Seq::new(pallets.len(), |i: int| pallets[i]@)
}

impl View for SignedExtension {
    type V = ExtensionModel;

    open spec fn view(&self) -> ExtensionModel {
        ExtensionModel {
            identifier: self.identifier@,
            ty: self.ty,
            additional_signed: self.additional_signed,
        }
    }
}

/// The models of the signed extensions of a list, in order.
pub open spec fn extension_models(extensions: Seq<SignedExtension>) -> Seq<ExtensionModel> {
    Seq::new(extensions.len(), |i: int| extensions[i]@)
}

impl View for Metadata {
    type V = MetadataModel;

    open spec fn view(&self) -> MetadataModel {
        MetadataModel {
            types: entry_models(self.types@),
            pallets: pallet_models(self.pallets@),
            extrinsic_version: self.extrinsic_version,
            extensions: extension_models(self.extensions@),
        }
    }
}

/// Whether the registry has a type with the given id.
pub open spec fn known(types: Seq<TypeEntryModel>, id: u32) -> bool {
    id_position(entry_ids(types), id) is Some
}

/// Whether the types that a storage item refers to are in the registry.
pub open spec fn entry_resolves(types: Seq<TypeEntryModel>, entry: StorageEntryModel) -> bool {
    &&& known(types, entry.value)
    &&& entry.key matches Some(key) ==> known(types, key)
}

/// Whether the types that a pallet refers to are in the registry.
pub open spec fn pallet_resolves(types: Seq<TypeEntryModel>, pallet: PalletModel) -> bool {
    &&& pallet.calls matches Some(calls) ==> known(types, calls)
    &&& pallet.events matches Some(events) ==> known(types, events)
    &&& pallet.errors matches Some(errors) ==> known(types, errors)
    &&& forall|k: int|
        0 <= k < pallet.constants.len() ==> known(types, (#[trigger] pallet.constants[k]).ty)
    &&& forall|k: int|
        0 <= k < pallet.storage.len() ==> entry_resolves(types, #[trigger] pallet.storage[k])
}

impl MetadataModel {
    /// Whether every type that a pallet refers to is in the registry.
    pub open spec fn well_formed(self) -> bool {
        forall|i: int|
            0 <= i < self.pallets.len() ==> pallet_resolves(self.types, #[trigger] self.pallets[i])
    }
}

/// The strategy with the given index.
pub open spec fn hasher_with(index: u8) -> Option<StorageHasher> {
    if index == 0 {
        Some(StorageHasher::Blake2_128)
    } else if index == 1 {
        Some(StorageHasher::Blake2_256)
    } else if index == 2 {
        Some(StorageHasher::Blake2_128Concat)
    } else if index == 3 {
        Some(StorageHasher::Twox128)
    } else if index == 4 {
        Some(StorageHasher::Twox256)
    } else if index == 5 {
        Some(StorageHasher::Twox64Concat)
    } else if index == 6 {
        Some(StorageHasher::Identity)
    } else {
        None
    }
}

/// The strategy that a decoded hasher stands for.
pub open spec fn hasher_of(d: Datum) -> Option<StorageHasher> {
    match variant_of(d) {
        Some((index, _)) => hasher_with(index),
        None => None,
    }
}

/// The strategies of a list.
pub open spec fn hashers_of(items: Seq<Datum>) -> Option<Seq<StorageHasher>> {
    if forall|i: int| 0 <= i < items.len() ==> hasher_of(#[trigger] items[i]) is Some {
        Some(Seq::new(items.len(), |i: int| hasher_of(items[i])->Some_0))
    } else {
        None
    }
}

/// The storage item that a decoded entry stands for: its name is the first
/// of its five parts, its addressing the third.
pub open spec fn storage_entry_of(d: Datum) -> Option<StorageEntryModel> {
    match tuple_of(d, 5) {
        None => None,
        Some(parts) => match (bytes_of(parts[0]), variant_of(parts[2])) {
            (Some(name), Some((kind, fields))) => if kind == 0 && fields.len() == 1 {
                match id_of(fields[0]) {
                    Some(value) => Some(
                        StorageEntryModel { name, hashers: Seq::empty(), key: None, value },
                    ),
                    None => None,
                }
            } else if kind == 1 && fields.len() == 3 {
                match (items_of(fields[0]), id_of(fields[1]), id_of(fields[2])) {
                    (Some(items), Some(key), Some(value)) => match hashers_of(items) {
                        Some(hashers) => Some(
                            StorageEntryModel { name, hashers, key: Some(key), value },
                        ),
                        None => None,
                    },
                    _ => None,
                }
            } else {
                None
            },
            _ => None,
        },
    }
}

/// The storage items of a list.
pub open spec fn storage_entries_of(items: Seq<Datum>) -> Option<Seq<StorageEntryModel>> {
    if forall|i: int| 0 <= i < items.len() ==> storage_entry_of(#[trigger] items[i]) is Some {
        Some(Seq::new(items.len(), |i: int| storage_entry_of(items[i])->Some_0))
    } else {
        None
    }
}

/// The prefix and the items of a pallet's storage, where it has one.
pub open spec fn storage_of(d: Datum) -> Option<(Seq<u8>, Seq<StorageEntryModel>)> {
    match optional_of(d) {
        None => None,
        Some(None) => Some((Seq::empty(), Seq::empty())),
        Some(Some(inner)) => match tuple_of(inner, 2) {
            None => None,
            Some(parts) => match (bytes_of(parts[0]), items_of(parts[1])) {
                (Some(prefix), Some(items)) => match storage_entries_of(items) {
                    Some(entries) => Some((prefix, entries)),
                    None => None,
                },
                _ => None,
            },
        },
    }
}

/// The type that an optional reference to a type names.
pub open spec fn type_ref_of(d: Datum) -> Option<Option<u32>> {
    match optional_of(d) {
        None => None,
        Some(None) => Some(None),
        Some(Some(inner)) => match tuple_of(inner, 1) {
            None => None,
            Some(parts) => match id_of(parts[0]) {
                Some(id) => Some(Some(id)),
                None => None,
            },
        },
    }
}

/// The constant that a decoded constant stands for: name, type and value
/// are the first three of its four parts.
pub open spec fn constant_of(d: Datum) -> Option<ConstantModel> {
    match tuple_of(d, 4) {
        None => None,
        Some(parts) => match (bytes_of(parts[0]), id_of(parts[1]), bytes_of(parts[2])) {
            (Some(name), Some(ty), Some(value)) => Some(ConstantModel { name, ty, value }),
            _ => None,
        },
    }
}

/// The constants of a list.
pub open spec fn constants_of(items: Seq<Datum>) -> Option<Seq<ConstantModel>> {
    if forall|i: int| 0 <= i < items.len() ==> constant_of(#[trigger] items[i]) is Some {
        Some(Seq::new(items.len(), |i: int| constant_of(items[i])->Some_0))
    } else {
        None
    }
}

/// The types of a pallet's calls, events and errors: the third, fourth and
/// sixth of its seven parts.
pub open spec fn pallet_types_of(parts: Seq<Datum>) -> Option<
    (Option<u32>, Option<u32>, Option<u32>),
> {
    match (type_ref_of(parts[2]), type_ref_of(parts[3]), type_ref_of(parts[5])) {
        (Some(calls), Some(events), Some(errors)) => Some((calls, events, errors)),
        _ => None,
    }
}

/// The pallet that a decoded pallet stands for: its seven parts are name,
/// storage, calls, events, constants, errors and index.
pub open spec fn pallet_of(d: Datum) -> Option<PalletModel> {
    match tuple_of(d, 7) {
        None => None,
        Some(parts) => match (
            bytes_of(parts[0]),
            storage_of(parts[1]),
            pallet_types_of(parts),
            items_of(parts[4]),
            byte_of(parts[6]),
        ) {
            (
                Some(name),
                Some((prefix, storage)),
                Some((calls, events, errors)),
                Some(items),
                Some(index),
            ) => match constants_of(items) {
                Some(constants) => Some(
                    PalletModel { name, index, calls, events, errors, constants, prefix, storage },
                ),
                None => None,
            },
            _ => None,
        },
    }
}

/// The pallets of a list.
pub open spec fn pallets_of(items: Seq<Datum>) -> Option<Seq<PalletModel>> {
    if forall|i: int| 0 <= i < items.len() ==> pallet_of(#[trigger] items[i]) is Some {
        Some(Seq::new(items.len(), |i: int| pallet_of(items[i])->Some_0))
    } else {
        None
    }
}

/// The signed extension that a decoded extension stands for.
pub open spec fn extension_of(d: Datum) -> Option<ExtensionModel> {
    match tuple_of(d, 3) {
        None => None,
        Some(parts) => match (bytes_of(parts[0]), id_of(parts[1]), id_of(parts[2])) {
            (Some(identifier), Some(ty), Some(additional_signed)) => Some(
                ExtensionModel { identifier, ty, additional_signed },
            ),
            _ => None,
        },
    }
}

/// The signed extensions of a list.
pub open spec fn extensions_of(items: Seq<Datum>) -> Option<Seq<ExtensionModel>> {
    if forall|i: int| 0 <= i < items.len() ==> extension_of(#[trigger] items[i]) is Some {
        Some(Seq::new(items.len(), |i: int| extension_of(items[i])->Some_0))
    } else {
        None
    }
}

/// The version and the signed extensions of the extrinsic format: the
/// second and third of its three parts.
pub open spec fn extrinsic_of(d: Datum) -> Option<(u8, Seq<ExtensionModel>)> {
    match tuple_of(d, 3) {
        None => None,
        Some(parts) => match (byte_of(parts[1]), items_of(parts[2])) {
            (Some(version), Some(items)) => match extensions_of(items) {
                Some(extensions) => Some((version, extensions)),
                None => None,
            },
            _ => None,
        },
    }
}

/// The metadata that a decoded body stands for: registry, pallets and
/// extrinsic format are the first three of its four parts.
pub open spec fn metadata_of(d: Datum) -> Option<MetadataModel> {
    match tuple_of(d, 4) {
        None => None,
        Some(parts) => match (items_of(parts[0]), items_of(parts[1]), extrinsic_of(parts[2])) {
            (Some(types), Some(pallets), Some((version, extensions))) => match (
                type_entries_of(types),
                pallets_of(pallets),
            ) {
                (Some(types), Some(pallets)) => Some(
                    MetadataModel { types, pallets, extrinsic_version: version, extensions },
                ),
                _ => None,
            },
            _ => None,
        },
    }
}

/// The well-formed metadata that a decoded body stands for. A body that is
/// no metadata, or that holds a type id beyond 32 bits, is refused as out
/// of range; one whose pallets refer to a type that the registry lacks is
/// refused as not found.
pub open spec fn metadata_from(d: Datum) -> Result<MetadataModel, MetadataError> {
    match metadata_of(d) {
        None => Err(MetadataError::Decode(DecodeError::OutOfRange)),
        Some(m) => if m.well_formed() {
            Ok(m)
        } else {
            Err(MetadataError::NotFound)
        },
    }
}

/// What reading `bytes` as metadata gives: four reserved bytes, the version
/// byte, then the body of version 14. Any other version is refused by its
/// number.
pub open spec fn parsed(bytes: Seq<u8>) -> Result<MetadataModel, MetadataError> {
    if bytes.len() < 5 {
        Err(MetadataError::Decode(DecodeError::UnexpectedEnd))
    } else if bytes[4] != 14 {
        Err(MetadataError::UnsupportedVersion(bytes[4]))
    } else {
        match decoding(metadata_shape(), bytes.skip(5)) {
            Err(e) => Err(MetadataError::Decode(e)),
            Ok((d, _)) => metadata_from(d),
        }
    }
}

/// The strategy with the given index.
pub fn read_hasher_index(index: u8) -> (r: Option<StorageHasher>)
    ensures
        r == hasher_with(index),
{
    if index == 0 {
        Some(StorageHasher::Blake2_128)
    } else if index == 1 {
        Some(StorageHasher::Blake2_256)
    } else if index == 2 {
        Some(StorageHasher::Blake2_128Concat)
    } else if index == 3 {
        Some(StorageHasher::Twox128)
    } else if index == 4 {
        Some(StorageHasher::Twox256)
    } else if index == 5 {
        Some(StorageHasher::Twox64Concat)
    } else if index == 6 {
        Some(StorageHasher::Identity)
    } else {
        None
    }
}

/// The strategies of a list.
pub fn read_hashers(items: &Vec<Value>) -> (r: Option<Vec<StorageHasher>>)
    ensures
        match hashers_of(models(items@)) {
            Some(hashers) => r is Some && r->Some_0@ == hashers,
            None => r is None,
        },
{
    let n: usize = items.len();
    let ghost ds = models(items@);
    let mut out: Vec<StorageHasher> = Vec::new();
    let mut i: usize = 0;
    while i < n
        invariant
            i <= n,
            n == items@.len(),
            ds == models(items@),
            out@.len() == i,
            forall|j: int| 0 <= j < i ==> hasher_of(#[trigger] ds[j]) == Some(out@[j]),
        decreases n - i,
    {
        let found: Option<StorageHasher> = match as_variant(&items[i]) {
            Some((index, _)) => read_hasher_index(index),
            None => None,
        };
        match found {
            None => {
                assert(hasher_of(ds[i as int]) is None);
                return None;
            },
            Some(hasher) => {
                out.push(hasher);
            },
        }
        i = i + 1;
    }
    assert(out@ =~= hashers_of(ds)->Some_0);
    Some(out)
}

/// The storage item that a decoded entry stands for.
pub fn read_storage_entry(v: &Value) -> (r: Option<StorageEntry>)
    ensures
        match storage_entry_of(v@) {
            Some(model) => r is Some && r->Some_0@ == model,
            None => r is None,
        },
{
    let parts = match as_tuple(v, 5) {
        Some(parts) => parts,
        None => {
            return None;
        },
    };
    let name = match as_bytes(&parts[0]) {
        Some(name) => name,
        None => {
            return None;
        },
    };
    let (kind, fields) = match as_variant(&parts[2]) {
        Some(pair) => pair,
        None => {
            return None;
        },
    };
    assert(models(fields@).len() == fields@.len());
    if kind == 0 && fields.len() == 1 {
        match as_id(&fields[0]) {
            Some(value) => Some(
                StorageEntry { name: name.clone(), hashers: Vec::new(), key: None, value },
            ),
            None => None,
        }
    } else if kind == 1 && fields.len() == 3 {
        let items = match as_items(&fields[0]) {
            Some(items) => items,
            None => {
                return None;
            },
        };
        let key: u32 = match as_id(&fields[1]) {
            Some(key) => key,
            None => {
                return None;
            },
        };
        let value: u32 = match as_id(&fields[2]) {
            Some(value) => value,
            None => {
                return None;
            },
        };
        match read_hashers(items) {
            Some(hashers) => Some(
                StorageEntry { name: name.clone(), hashers, key: Some(key), value },
            ),
            None => None,
        }
    } else {
        None
    }
}

/// The storage items of a list.
pub fn read_storage_entries(items: &Vec<Value>) -> (r: Option<Vec<StorageEntry>>)
    ensures
        match storage_entries_of(models(items@)) {
            Some(entries) => r is Some && storage_models(r->Some_0@) == entries,
            None => r is None,
        },
{
    let n: usize = items.len();
    let ghost ds = models(items@);
    let mut out: Vec<StorageEntry> = Vec::new();
    let mut i: usize = 0;
    while i < n
        invariant
            i <= n,
            n == items@.len(),
            ds == models(items@),
            out@.len() == i,
            forall|j: int| 0 <= j < i ==> storage_entry_of(#[trigger] ds[j]) == Some(out@[j]@),
        decreases n - i,
    {
        match read_storage_entry(&items[i]) {
            None => {
                assert(storage_entry_of(ds[i as int]) is None);
                return None;
            },
            Some(entry) => {
                out.push(entry);
            },
        }
        i = i + 1;
    }
    assert(storage_models(out@) =~= storage_entries_of(ds)->Some_0);
    Some(out)
}

/// The prefix and the items of a pallet's storage.
pub fn read_storage(v: &Value) -> (r: Option<(Vec<u8>, Vec<StorageEntry>)>)
    ensures
        match storage_of(v@) {
            Some((prefix, entries)) => r is Some && r->Some_0.0@ == prefix && storage_models(
                r->Some_0.1@,
            ) == entries,
            None => r is None,
        },
{
    match as_optional(v) {
        None => None,
        Some(None) => {
            let prefix: Vec<u8> = Vec::new();
            let entries: Vec<StorageEntry> = Vec::new();
            assert(storage_models(entries@) =~= Seq::<StorageEntryModel>::empty());
            Some((prefix, entries))
        },
        Some(Some(inner)) => {
            let parts = match as_tuple(inner, 2) {
                Some(parts) => parts,
                None => {
                    return None;
                },
            };
            let prefix = match as_bytes(&parts[0]) {
                Some(prefix) => prefix,
                None => {
                    return None;
                },
            };
            let items = match as_items(&parts[1]) {
                Some(items) => items,
                None => {
                    return None;
                },
            };
            match read_storage_entries(items) {
                Some(entries) => Some((prefix.clone(), entries)),
                None => None,
            }
        },
    }
}

/// The type that an optional reference to a type names.
pub fn read_type_ref(v: &Value) -> (r: Option<Option<u32>>)
    ensures
        r == type_ref_of(v@),
{
    match as_optional(v) {
        None => None,
        Some(None) => Some(None),
        Some(Some(inner)) => match as_tuple(inner, 1) {
            None => None,
            Some(parts) => match as_id(&parts[0]) {
                Some(id) => Some(Some(id)),
                None => None,
            },
        },
    }
}

/// The constant that a decoded constant stands for.
pub fn read_constant(v: &Value) -> (r: Option<Constant>)
    ensures
        match constant_of(v@) {
            Some(model) => r is Some && r->Some_0@ == model,
            None => r is None,
        },
{
    let parts = match as_tuple(v, 4) {
        Some(parts) => parts,
        None => {
            return None;
        },
    };
    let name = match as_bytes(&parts[0]) {
        Some(name) => name,
        None => {
            return None;
        },
    };
    let ty: u32 = match as_id(&parts[1]) {
        Some(ty) => ty,
        None => {
            return None;
        },
    };
    match as_bytes(&parts[2]) {
        Some(value) => Some(Constant { name: name.clone(), ty, value: value.clone() }),
        None => None,
    }
}

/// The constants of a list.
pub fn read_constants(items: &Vec<Value>) -> (r: Option<Vec<Constant>>)
    ensures
        match constants_of(models(items@)) {
            Some(constants) => r is Some && constant_models(r->Some_0@) == constants,
            None => r is None,
        },
{
    let n: usize = items.len();
    let ghost ds = models(items@);
    let mut out: Vec<Constant> = Vec::new();
    let mut i: usize = 0;
    while i < n
        invariant
            i <= n,
            n == items@.len(),
            ds == models(items@),
            out@.len() == i,
            forall|j: int| 0 <= j < i ==> constant_of(#[trigger] ds[j]) == Some(out@[j]@),
        decreases n - i,
    {
        match read_constant(&items[i]) {
            None => {
                assert(constant_of(ds[i as int]) is None);
                return None;
            },
            Some(constant) => {
                out.push(constant);
            },
        }
        i = i + 1;
    }
    assert(constant_models(out@) =~= constants_of(ds)->Some_0);
    Some(out)
}

/// The pallet that a decoded pallet stands for.
pub fn read_pallet(v: &Value) -> (r: Option<Pallet>)
    ensures
        match pallet_of(v@) {
            Some(model) => r is Some && r->Some_0@ == model,
            None => r is None,
        },
{
    let parts = match as_tuple(v, 7) {
        Some(parts) => parts,
        None => {
            return None;
        },
    };
    let name = match as_bytes(&parts[0]) {
        Some(name) => name,
        None => {
            return None;
        },
    };
    let (prefix, storage) = match read_storage(&parts[1]) {
        Some(pair) => pair,
        None => {
            return None;
        },
    };
    let calls: Option<u32> = match read_type_ref(&parts[2]) {
        Some(calls) => calls,
        None => {
            return None;
        },
    };
    let events: Option<u32> = match read_type_ref(&parts[3]) {
        Some(events) => events,
        None => {
            return None;
        },
    };
    let errors: Option<u32> = match read_type_ref(&parts[5]) {
        Some(errors) => errors,
        None => {
            return None;
        },
    };
    let items = match as_items(&parts[4]) {
        Some(items) => items,
        None => {
            return None;
        },
    };
    let index: u8 = match as_byte(&parts[6]) {
        Some(index) => index,
        None => {
            return None;
        },
    };
    match read_constants(items) {
        Some(constants) => Some(
            Pallet { name: name.clone(), index, calls, events, errors, constants, prefix, storage },
        ),
        None => None,
    }
}

/// The pallets of a list.
pub fn read_pallets(items: &Vec<Value>) -> (r: Option<Vec<Pallet>>)
    ensures
        match pallets_of(models(items@)) {
            Some(pallets) => r is Some && pallet_models(r->Some_0@) == pallets,
            None => r is None,
        },
{
    let n: usize = items.len();
    let ghost ds = models(items@);
    let mut out: Vec<Pallet> = Vec::new();
    let mut i: usize = 0;
    while i < n
        invariant
            i <= n,
            n == items@.len(),
            ds == models(items@),
            out@.len() == i,
            forall|j: int| 0 <= j < i ==> pallet_of(#[trigger] ds[j]) == Some(out@[j]@),
        decreases n - i,
    {
        match read_pallet(&items[i]) {
            None => {
                assert(pallet_of(ds[i as int]) is None);
                return None;
            },
            Some(pallet) => {
                out.push(pallet);
            },
        }
        i = i + 1;
    }
    assert(pallet_models(out@) =~= pallets_of(ds)->Some_0);
    Some(out)
}

/// The signed extension that a decoded extension stands for.
pub fn read_extension(v: &Value) -> (r: Option<SignedExtension>)
    ensures
        match extension_of(v@) {
            Some(model) => r is Some && r->Some_0@ == model,
            None => r is None,
        },
{
    let parts = match as_tuple(v, 3) {
        Some(parts) => parts,
        None => {
            return None;
        },
    };
    let identifier = match as_bytes(&parts[0]) {
        Some(identifier) => identifier,
        None => {
            return None;
        },
    };
    match (as_id(&parts[1]), as_id(&parts[2])) {
        (Some(ty), Some(additional_signed)) => Some(
            SignedExtension { identifier: identifier.clone(), ty, additional_signed },
        ),
        _ => None,
    }
}

/// The signed extensions of a list.
pub fn read_extensions(items: &Vec<Value>) -> (r: Option<Vec<SignedExtension>>)
    ensures
        match extensions_of(models(items@)) {
            Some(extensions) => r is Some && extension_models(r->Some_0@) == extensions,
            None => r is None,
        },
{
    let n: usize = items.len();
    let ghost ds = models(items@);
    let mut out: Vec<SignedExtension> = Vec::new();
    let mut i: usize = 0;
    while i < n
        invariant
            i <= n,
            n == items@.len(),
            ds == models(items@),
            out@.len() == i,
            forall|j: int| 0 <= j < i ==> extension_of(#[trigger] ds[j]) == Some(out@[j]@),
        decreases n - i,
    {
        match read_extension(&items[i]) {
            None => {
                assert(extension_of(ds[i as int]) is None);
                return None;
            },
            Some(extension) => {
                out.push(extension);
            },
        }
        i = i + 1;
    }
    assert(extension_models(out@) =~= extensions_of(ds)->Some_0);
    Some(out)
}

/// The version and the signed extensions of the extrinsic format.
pub fn read_extrinsic(v: &Value) -> (r: Option<(u8, Vec<SignedExtension>)>)
    ensures
        match extrinsic_of(v@) {
            Some((version, extensions)) => r is Some && r->Some_0.0 == version
                && extension_models(r->Some_0.1@) == extensions,
            None => r is None,
        },
{
    let parts = match as_tuple(v, 3) {
        Some(parts) => parts,
        None => {
            return None;
        },
    };
    let version: u8 = match as_byte(&parts[1]) {
        Some(version) => version,
        None => {
            return None;
        },
    };
    let items = match as_items(&parts[2]) {
        Some(items) => items,
        None => {
            return None;
        },
    };
    match read_extensions(items) {
        Some(extensions) => Some((version, extensions)),
        None => None,
    }
}

/// The metadata that a decoded body of version 14 stands for.
pub fn read_metadata(v: &Value) -> (r: Option<Metadata>)
    ensures
        match metadata_of(v@) {
            Some(model) => r is Some && r->Some_0@ == model,
            None => r is None,
        },
{
    let parts = match as_tuple(v, 4) {
        Some(parts) => parts,
        None => {
            return None;
        },
    };
    let type_items = match as_items(&parts[0]) {
        Some(items) => items,
        None => {
            return None;
        },
    };
    let pallet_items = match as_items(&parts[1]) {
        Some(items) => items,
        None => {
            return None;
        },
    };
    let (extrinsic_version, extensions) = match read_extrinsic(&parts[2]) {
        Some(pair) => pair,
        None => {
            return None;
        },
    };
    let types = match read_type_entries(type_items) {
        Some(types) => types,
        None => {
            return None;
        },
    };
    match read_pallets(pallet_items) {
        Some(pallets) => Some(Metadata { types, pallets, extrinsic_version, extensions }),
        None => None,
    }
}

/// Whether the types that a storage item refers to are in the registry.
pub fn entry_in_registry(types: &Vec<TypeEntry>, entry: &StorageEntry) -> (b: bool)
    ensures
        b == entry_resolves(entry_models(types@), entry@),
{
    if find_type(types, entry.value).is_none() {
        return false;
    }
    match entry.key {
        Some(key) => find_type(types, key).is_some(),
        None => true,
    }
}

/// Whether an optional reference to a type finds its type in the
/// registry.
pub open spec fn reference_resolves(types: Seq<TypeEntryModel>, reference: Option<u32>) -> bool {
    reference matches Some(id) ==> known(types, id)
}

/// Whether an optional reference to a type finds its type in the
/// registry.
pub fn reference_in_registry(types: &Vec<TypeEntry>, reference: Option<u32>) -> (b: bool)
    ensures
        b == reference_resolves(entry_models(types@), reference),
{
    match reference {
        Some(id) => find_type(types, id).is_some(),
        None => true,
    }
}

/// Whether the types that a pallet refers to are in the registry.
pub fn pallet_in_registry(types: &Vec<TypeEntry>, pallet: &Pallet) -> (b: bool)
    ensures
        b == pallet_resolves(entry_models(types@), pallet@),
{
    if !reference_in_registry(types, pallet.calls) || !reference_in_registry(types, pallet.events)
        || !reference_in_registry(types, pallet.errors) {
        return false;
    }
    let ghost constants = constant_models(pallet.constants@);
    let count: usize = pallet.constants.len();
    let mut c: usize = 0;
    while c < count
        invariant
            c <= count,
            count == pallet.constants@.len(),
            constants == constant_models(pallet.constants@),
            forall|j: int| 0 <= j < c ==> known(entry_models(types@), (#[trigger] constants[j]).ty),
        decreases count - c,
    {
        assert(constants[c as int] == pallet.constants@[c as int]@);
        if find_type(types, pallet.constants[c].ty).is_none() {
            assert(!known(entry_models(types@), pallet@.constants[c as int].ty));
            return false;
        }
        c = c + 1;
    }
    let ghost entries = storage_models(pallet.storage@);
    let n: usize = pallet.storage.len();
    let mut k: usize = 0;
    while k < n
        invariant
            k <= n,
            n == pallet.storage@.len(),
            entries == storage_models(pallet.storage@),
            constants == constant_models(pallet.constants@),
            reference_resolves(entry_models(types@), pallet.calls),
            reference_resolves(entry_models(types@), pallet.events),
            reference_resolves(entry_models(types@), pallet.errors),
            forall|j: int|
                0 <= j < constants.len() ==> known(
                    entry_models(types@),
                    (#[trigger] constants[j]).ty,
                ),
            forall|j: int|
                0 <= j < k ==> entry_resolves(entry_models(types@), #[trigger] entries[j]),
        decreases n - k,
    {
        assert(entries[k as int] == pallet.storage@[k as int]@);
        if !entry_in_registry(types, &pallet.storage[k]) {
            assert(!entry_resolves(entry_models(types@), pallet@.storage[k as int]));
            return false;
        }
        k = k + 1;
    }
    true
}

impl Metadata {
    /// Whether every type that a pallet refers to is in the registry.
    pub fn is_well_formed(&self) -> (b: bool)
        ensures
            b == self@.well_formed(),
    {
        let ghost pallets = pallet_models(self.pallets@);
        let n: usize = self.pallets.len();
        let mut i: usize = 0;
        while i < n
            invariant
                i <= n,
                n == self.pallets@.len(),
                pallets == pallet_models(self.pallets@),
                forall|j: int|
                    0 <= j < i ==> pallet_resolves(
                        entry_models(self.types@),
                        #[trigger] pallets[j],
                    ),
            decreases n - i,
        {
            assert(pallets[i as int] == self.pallets@[i as int]@);
            if !pallet_in_registry(&self.types, &self.pallets[i]) {
                assert(!pallet_resolves(self@.types, self@.pallets[i as int]));
                return false;
            }
            i = i + 1;
        }
        true
    }

    /// The metadata that a decoded body of version 14 stands for, with
    /// every type that a pallet refers to in its registry.
    pub fn from_value(v: &Value) -> (r: Result<Metadata, MetadataError>)
        ensures
            match metadata_from(v@) {
                Ok(model) => r is Ok && r->Ok_0@ == model && model.well_formed(),
                Err(e) => r is Err && r->Err_0 == e,
            },
    {
        match read_metadata(v) {
            None => Err(MetadataError::Decode(DecodeError::OutOfRange)),
            Some(metadata) => {
                if metadata.is_well_formed() {
                    Ok(metadata)
                } else {
                    Err(MetadataError::NotFound)
                }
            },
        }
    }

    /// Reads the metadata that a node hands out: four reserved bytes, the
    /// version byte, and the body of version 14.
    pub fn parse(bytes: &[u8]) -> (r: Result<Metadata, MetadataError>)
        ensures
            match parsed(bytes@) {
                Ok(model) => r is Ok && r->Ok_0@ == model && model.well_formed(),
                Err(e) => r is Err && r->Err_0 == e,
            },
    {
        if bytes.len() < 5 {
            return Err(MetadataError::Decode(DecodeError::UnexpectedEnd));
        }
        let version: u8 = bytes[4];
        if version != SUPPORTED_VERSION {
            return Err(MetadataError::UnsupportedVersion(version));
        }
        let layout = metadata_type();
        match decode_at(&layout, bytes, 5) {
            Err(e) => Err(MetadataError::Decode(e)),
            Ok((body, _)) => Metadata::from_value(&body),
        }
    }
}

/// A version other than the supported one is reported by its number,
/// whatever follows it.
pub proof fn lemma_other_version_unsupported(bytes: Seq<u8>)
    requires
        bytes.len() >= 5,
        bytes[4] != 14,
    ensures
        parsed(bytes) == Err::<MetadataModel, MetadataError>(
            MetadataError::UnsupportedVersion(bytes[4]),
        ),
{
}

} // verus!
