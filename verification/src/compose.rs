//! Calls and storage addresses made from what the metadata declares: the
//! indices are looked up, the arguments are checked against the declared
//! types, and the keys are hashed as the map declares.

use crate::codec::{decode_exact, decoding_exact, have_shapes};
use crate::describe::{shape_for, shapes_for};
use crate::error::{BuildError, MetadataError};
use crate::extrinsic::UnsignedCall;
use crate::hasher::StorageHasher;
use crate::lookup::{
    entry_names, find_entry, find_pallet, find_variant, pallet_names, position, type_def_for,
    variant_names,
};
use crate::metadata::{
    storage_models, Metadata, MetadataModel, StorageEntry, StorageEntryModel,
};
use crate::registry::{variant_models, TypeDef, TypeDefModel};
use crate::storage::{build_from, key_models, storage_address, MapKey};
use crate::value::{models, shapes, Shape, TypeDescriptor, Value};
use vstd::prelude::*;
use vstd::string::StringSliceAdditionalSpecFns;

verus! {

/// What the metadata declares of a call: the two indices that stand for it
/// on the wire, and the types of its arguments.
#[derive(Debug, PartialEq, Eq)]
pub struct CallSignature {
    pub pallet_index: u8,
    pub call_index: u8,
    pub arguments: Vec<TypeDescriptor>,
}

/// What the metadata declares of the call `call` of the pallet `pallet`,
/// with argument types followed at most `depth` definitions deep.
pub open spec fn signature_of(
    m: MetadataModel,
    pallet: Seq<u8>,
    call: Seq<u8>,
    depth: nat,
) -> Result<(u8, u8, Seq<Shape>), MetadataError> {
    match position(pallet_names(m.pallets), pallet) {
        None => Err(MetadataError::NotFound),
        Some(i) => match m.pallets[i].calls {
            None => Err(MetadataError::NotFound),
            Some(ty) => match type_def_for(m, ty) {
                Ok(TypeDefModel::Variant(variants)) => match position(
                    variant_names(variants),
                    call,
                ) {
                    None => Err(MetadataError::NotFound),
                    Some(k) => match shapes_for(m, variants[k].fields, depth) {
                        Ok(arguments) => Ok((m.pallets[i].index, variants[k].index, arguments)),
                        Err(e) => Err(e),
                    },
                },
                _ => Err(MetadataError::NotFound),
            },
        },
    }
}

/// The keys with the strategies of the map, one for one.
pub open spec fn keyed(hashers: Seq<StorageHasher>, keys: Seq<Seq<u8>>) -> Seq<
    (StorageHasher, Seq<u8>),
> {
    Seq::new(keys.len(), |i: int| (hashers[i], keys[i]))
}

/// The views of the keys of a list.
pub open spec fn raw_keys(keys: Seq<Vec<u8>>) -> Seq<Seq<u8>> {
    Seq::new(keys.len(), |i: int| keys[i]@)
}

/// The types of the `count` keys of a storage item: none for a plain item,
/// the key type for a map, the two members of the key type for a double
/// map.
pub open spec fn key_types(m: MetadataModel, entry: StorageEntryModel, count: nat) -> Result<
    Seq<u32>,
    MetadataError,
> {
    if entry.hashers.len() != count || count > 2 {
        Err(MetadataError::Unsupported)
    } else if count == 0 {
        Ok(Seq::empty())
    } else {
        match entry.key {
            None => Err(MetadataError::Unsupported),
            Some(key) => if count == 1 {
                Ok(seq![key])
            } else {
                match type_def_for(m, key) {
                    Err(e) => Err(e),
                    Ok(TypeDefModel::Tuple(members)) => if members.len() == 2 {
                        Ok(members)
                    } else {
                        Err(MetadataError::Unsupported)
                    },
                    Ok(_) => Err(MetadataError::Unsupported),
                }
            },
        }
    }
}

/// Whether the key is exactly one value of its declared type, or why not.
pub open spec fn key_fits(m: MetadataModel, ty: u32, key: Seq<u8>, depth: nat) -> Result<
    (),
    MetadataError,
> {
    match shape_for(m, ty, depth) {
        Err(e) => Err(e),
        Ok(sh) => match decoding_exact(sh, key) {
            Err(e) => Err(MetadataError::Decode(e)),
            Ok(_) => Ok(()),
        },
    }
}

/// Whether each key is exactly one value of its declared type; the first
/// that is not decides the error.
pub open spec fn keys_fit(
    m: MetadataModel,
    types: Seq<u32>,
    keys: Seq<Seq<u8>>,
    depth: nat,
) -> Result<(), MetadataError>
    decreases types.len(),
{
    if types.len() == 0 || keys.len() == 0 {
        Ok(())
    } else {
        match key_fits(m, types[0], keys[0], depth) {
            Err(e) => Err(e),
            Ok(_) => keys_fit(m, types.skip(1), keys.skip(1), depth),
        }
    }
}

/// The address of the entry of `item` in `pallet` under `keys`, hashed as
/// the metadata declares; the pallet's storage prefix stands for the
/// pallet. There are as many keys as the map declares, at most two, and
/// each is exactly one value of its declared type.
pub open spec fn address_of(
    m: MetadataModel,
    pallet: Seq<u8>,
    item: Seq<u8>,
    keys: Seq<Seq<u8>>,
    depth: nat,
) -> Result<Seq<u8>, MetadataError> {
    match position(pallet_names(m.pallets), pallet) {
        None => Err(MetadataError::NotFound),
        Some(i) => match position(entry_names(m.pallets[i].storage), item) {
            None => Err(MetadataError::NotFound),
            Some(k) => {
                let entry = m.pallets[i].storage[k];
                match key_types(m, entry, keys.len()) {
                    Err(e) => Err(e),
                    Ok(types) => match keys_fit(m, types, keys, depth) {
                        Err(e) => Err(e),
                        Ok(_) => Ok(
                            storage_address(m.pallets[i].prefix, item, keyed(entry.hashers, keys)),
                        ),
                    },
                }
            },
        },
    }
}

impl Metadata {
    /// What the metadata declares of the call `call` of the pallet
    /// `pallet`.
    pub fn call_signature(&self, pallet: &str, call: &str, depth: usize) -> (r: Result<
        CallSignature,
        MetadataError,
    >)
        ensures
            match signature_of(self@, pallet.spec_bytes(), call.spec_bytes(), depth as nat) {
                Ok((pallet_index, call_index, arguments)) => r is Ok && r->Ok_0.pallet_index
                    == pallet_index && r->Ok_0.call_index == call_index && shapes(
                    r->Ok_0.arguments@,
                ) == arguments,
                Err(e) => r is Err && r->Err_0 == e,
            },
    {
        let i: usize = match find_pallet(&self.pallets, pallet.as_bytes()) {
            Some(i) => i,
            None => {
                return Err(MetadataError::NotFound);
            },
        };
        assert(self@.pallets[i as int] == self.pallets@[i as int]@);
        let ty: u32 = match self.pallets[i].calls {
            Some(ty) => ty,
            None => {
                return Err(MetadataError::NotFound);
            },
        };
        match self.resolve_type(ty) {
            Ok(TypeDef::Variant(variants)) => match find_variant(variants, call.as_bytes()) {
                Some(k) => {
                    assert(variant_models(variants@)[k as int] == variants@[k as int]@);
                    match self.describe_all(&variants[k].fields, depth) {
                        Ok(arguments) => Ok(
                            CallSignature {
                                pallet_index: self.pallets[i].index,
                                call_index: variants[k].index,
                                arguments,
                            },
                        ),
                        Err(e) => Err(e),
                    }
                },
                None => Err(MetadataError::NotFound),
            },
            _ => Err(MetadataError::NotFound),
        }
    }

    /// The call `call` of the pallet `pallet` with the given arguments: the
    /// indices are those that the metadata declares, and the arguments are
    /// of the declared types.
    pub fn compose_call(&self, pallet: &str, call: &str, args: Vec<Value>, depth: usize) -> (r:
        Result<UnsignedCall, BuildError>)
        ensures
            match signature_of(self@, pallet.spec_bytes(), call.spec_bytes(), depth as nat) {
                Err(e) => r == Err::<UnsignedCall, BuildError>(BuildError::Metadata(e)),
                Ok((pallet_index, call_index, arguments)) => if have_shapes(
                    models(args@),
                    arguments,
                ) {
                    r == Ok::<UnsignedCall, BuildError>(
                        UnsignedCall { pallet_index, call_index, args },
                    )
                } else {
                    r == Err::<UnsignedCall, BuildError>(BuildError::Encode)
                },
            },
    {
        let signature = match self.call_signature(pallet, call, depth) {
            Ok(signature) => signature,
            Err(e) => {
                return Err(BuildError::Metadata(e));
            },
        };
        match UnsignedCall::new(
            signature.pallet_index,
            signature.call_index,
            args,
            &signature.arguments,
        ) {
            Ok(call) => Ok(call),
            Err(_) => Err(BuildError::Encode),
        }
    }

    /// The types of the `count` keys of a storage item.
    pub fn key_types_of(&self, entry: &StorageEntry, count: usize) -> (r: Result<
        Vec<u32>,
        MetadataError,
    >)
        ensures
            match key_types(self@, entry@, count as nat) {
                Ok(types) => r is Ok && r->Ok_0@ == types && types.len() == count,
                Err(e) => r is Err && r->Err_0 == e,
            },
    {
        if entry.hashers.len() != count || count > 2 {
            return Err(MetadataError::Unsupported);
        }
        let mut types: Vec<u32> = Vec::new();
        if count == 0 {
            return Ok(types);
        }
        let key: u32 = match entry.key {
            Some(key) => key,
            None => {
                return Err(MetadataError::Unsupported);
            },
        };
        if count == 1 {
            types.push(key);
            assert(types@ =~= seq![key]);
            return Ok(types);
        }
        match self.resolve_type(key) {
            Err(e) => Err(e),
            Ok(TypeDef::Tuple(members)) => {
                if members.len() == 2 {
                    types.push(members[0]);
                    types.push(members[1]);
                    assert(types@ =~= members@);
                    Ok(types)
                } else {
                    Err(MetadataError::Unsupported)
                }
            },
            Ok(_) => Err(MetadataError::Unsupported),
        }
    }

    /// Whether the key is exactly one value of its declared type.
    pub fn check_key(&self, ty: u32, key: &[u8], depth: usize) -> (r: Result<(), MetadataError>)
        ensures
            r == key_fits(self@, ty, key@, depth as nat),
    {
        match self.describe(ty, depth) {
            Err(e) => Err(e),
            Ok(described) => match decode_exact(&described, key) {
                Err(e) => Err(MetadataError::Decode(e)),
                Ok(_) => Ok(()),
            },
        }
    }

    /// The address of the entry of `item` in `pallet` under `keys`: each
    /// key is checked against its declared type and hashed under the
    /// strategy that the map declares for it.
    pub fn storage_key(&self, pallet: &str, item: &str, keys: &Vec<Vec<u8>>, depth: usize) -> (r:
        Result<Vec<u8>, MetadataError>)
        ensures
            match address_of(
                self@,
                pallet.spec_bytes(),
                item.spec_bytes(),
                raw_keys(keys@),
                depth as nat,
            ) {
                Ok(address) => r is Ok && r->Ok_0@ == address,
                Err(e) => r is Err && r->Err_0 == e,
            },
    {
        let i: usize = match find_pallet(&self.pallets, pallet.as_bytes()) {
            Some(i) => i,
            None => {
                return Err(MetadataError::NotFound);
            },
        };
        assert(self@.pallets[i as int] == self.pallets@[i as int]@);
        let entries = &self.pallets[i].storage;
        let k: usize = match find_entry(entries, item.as_bytes()) {
            Some(k) => k,
            None => {
                return Err(MetadataError::NotFound);
            },
        };
        assert(storage_models(entries@)[k as int] == entries@[k as int]@);
        let entry = &entries[k];
        let hashers = &entry.hashers;
        let n: usize = keys.len();
        let ghost raw = raw_keys(keys@);
        let types: Vec<u32> = match self.key_types_of(entry, n) {
            Ok(types) => types,
            Err(e) => {
                return Err(e);
            },
        };
        let ghost want = keyed(hashers@, raw);
        let ghost goal = address_of(
            self@,
            pallet.spec_bytes(),
            item.spec_bytes(),
            raw,
            depth as nat,
        );
        let ghost built = storage_address(self@.pallets[i as int].prefix, item.spec_bytes(), want);
        let mut map_keys: Vec<MapKey> = Vec::new();
        let mut j: usize = 0;
        proof {
            assert(types@.skip(0) =~= types@);
            assert(raw.skip(0) =~= raw);
            assert(raw.len() == n);
        }
        while j < n
            invariant
                j <= n,
                n <= 2,
                n == keys@.len(),
                n == hashers@.len(),
                n == types@.len(),
                raw == raw_keys(keys@),
                map_keys@.len() == j,
                want == keyed(hashers@, raw),
                forall|x: int| 0 <= x < j ==> (#[trigger] map_keys@[x])@ == want[x],
                goal == address_of(
                    self@,
                    pallet.spec_bytes(),
                    item.spec_bytes(),
                    raw,
                    depth as nat,
                ),
                goal == (match keys_fit(self@, types@, raw, depth as nat) {
                    Err(e) => Err::<Seq<u8>, MetadataError>(e),
                    Ok(_) => Ok::<Seq<u8>, MetadataError>(built),
                }),
                keys_fit(self@, types@, raw, depth as nat) == keys_fit(
                    self@,
                    types@.skip(j as int),
                    raw.skip(j as int),
                    depth as nat,
                ),
            decreases n - j,
        {
            proof {
                assert(types@.skip(j as int)[0] == types@[j as int]);
                assert(raw.skip(j as int)[0] == keys@[j as int]@);
                assert(types@.skip(j as int).skip(1) =~= types@.skip(j + 1));
                assert(raw.skip(j as int).skip(1) =~= raw.skip(j + 1));
            }
            match self.check_key(types[j], keys[j].as_slice(), depth) {
                Err(e) => {
                    return Err(e);
                },
                Ok(_) => {},
            }
            let mut key: Vec<u8> = Vec::new();
            crate::bytes::push_bytes(&mut key, keys[j].as_slice());
            assert(key@ =~= keys@[j as int]@);
            map_keys.push(MapKey { hasher: hashers[j], key });
            j = j + 1;
        }
        assert(key_models(map_keys@) =~= want);
        Ok(build_from(self.pallets[i].prefix.as_slice(), item.as_bytes(), &map_keys))
    }
}

} // verus!
