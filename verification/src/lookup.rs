//! Looking things up in the metadata by name or id. Nothing is assumed to
//! be there: what is absent is reported as `NotFound`.

use crate::bytes::same_bytes;
use crate::error::MetadataError;
use crate::hasher::StorageHasher;
use crate::metadata::{
    entry_resolves, pallet_models, pallet_resolves, storage_models, Metadata, MetadataModel,
    Pallet, PalletModel, StorageEntry, StorageEntryModel,
};
use crate::registry::{
    entry_models, variant_models, TypeDef, TypeDefModel, TypeEntry, TypeEntryModel, VariantDef,
    VariantModel,
};
use vstd::prelude::*;
use vstd::string::StringSliceAdditionalSpecFns;

verus! {

/// Whether `i` is the place of the first of `names` that is `name`.
pub open spec fn first_at(names: Seq<Seq<u8>>, name: Seq<u8>, i: int) -> bool {
    &&& 0 <= i < names.len()
    &&& names[i] == name
    &&& forall|j: int| 0 <= j < i ==> #[trigger] names[j] != name
}

/// The place of the first of `names` that is `name`.
pub open spec fn position(names: Seq<Seq<u8>>, name: Seq<u8>) -> Option<int> {
    if exists|i: int| first_at(names, name, i) {
        Some(choose|i: int| first_at(names, name, i))
    } else {
        None
    }
}

/// Whether `i` is the place of the first of `ids` that is `id`.
pub open spec fn first_id_at(ids: Seq<u32>, id: u32, i: int) -> bool {
    &&& 0 <= i < ids.len()
    &&& ids[i] == id
    &&& forall|j: int| 0 <= j < i ==> #[trigger] ids[j] != id
}

/// The place of the first of `ids` that is `id`.
pub open spec fn id_position(ids: Seq<u32>, id: u32) -> Option<int> {
    if exists|i: int| first_id_at(ids, id, i) {
        Some(choose|i: int| first_id_at(ids, id, i))
    } else {
        None
    }
}

/// The first place is the only first place.
pub proof fn lemma_position_found(names: Seq<Seq<u8>>, name: Seq<u8>, i: int)
    requires
        first_at(names, name, i),
    ensures
        position(names, name) == Some(i),
{
    let k = choose|k: int| first_at(names, name, k);
    if k < i {
        assert(names[k] != name);
    } else if i < k {
        assert(names[i] != name);
    }
}

/// Where no name matches there is no place.
pub proof fn lemma_position_absent(names: Seq<Seq<u8>>, name: Seq<u8>)
    requires
        forall|j: int| 0 <= j < names.len() ==> #[trigger] names[j] != name,
    ensures
        position(names, name) is None,
{
    if exists|i: int| first_at(names, name, i) {
        let k = choose|k: int| first_at(names, name, k);
        assert(names[k] != name);
    }
}

/// The first place of an id is the only first place.
pub proof fn lemma_id_position_found(ids: Seq<u32>, id: u32, i: int)
    requires
        first_id_at(ids, id, i),
    ensures
        id_position(ids, id) == Some(i),
{
    let k = choose|k: int| first_id_at(ids, id, k);
    if k < i {
        assert(ids[k] != id);
    } else if i < k {
        assert(ids[i] != id);
    }
}

/// Where no id matches there is no place.
pub proof fn lemma_id_position_absent(ids: Seq<u32>, id: u32)
    requires
        forall|j: int| 0 <= j < ids.len() ==> #[trigger] ids[j] != id,
    ensures
        id_position(ids, id) is None,
{
    if exists|i: int| first_id_at(ids, id, i) {
        let k = choose|k: int| first_id_at(ids, id, k);
        assert(ids[k] != id);
    }
}

/// The names of the pallets, in order.
pub open spec fn pallet_names(pallets: Seq<PalletModel>) -> Seq<Seq<u8>> {
    Seq::new(pallets.len(), |i: int| pallets[i].name)
}

/// The names of the storage items, in order.
pub open spec fn entry_names(entries: Seq<StorageEntryModel>) -> Seq<Seq<u8>> {
    Seq::new(entries.len(), |i: int| entries[i].name)
}

/// The names of the variants, in order.
pub open spec fn variant_names(variants: Seq<VariantModel>) -> Seq<Seq<u8>> {
    Seq::new(variants.len(), |i: int| variants[i].name)
}

/// The ids of the registry's entries, in order.
pub open spec fn entry_ids(entries: Seq<TypeEntryModel>) -> Seq<u32> {
    Seq::new(entries.len(), |i: int| entries[i].id)
}

/// The index of the first pallet called `name`.
pub open spec fn pallet_index_of(m: MetadataModel, name: Seq<u8>) -> Result<u8, MetadataError> {
    match position(pallet_names(m.pallets), name) {
        Some(i) => Ok(m.pallets[i].index),
        None => Err(MetadataError::NotFound),
    }
}

/// The definition of the first type with the given id.
pub open spec fn type_def_for(m: MetadataModel, id: u32) -> Result<TypeDefModel, MetadataError> {
    match id_position(entry_ids(m.types), id) {
        Some(i) => Ok(m.types[i].def),
        None => Err(MetadataError::NotFound),
    }
}

/// The index of the call `call` of the pallet `pallet`: the index of the
/// first variant of that name in the enum that is the type of the pallet's
/// calls.
pub open spec fn call_index_of(m: MetadataModel, pallet: Seq<u8>, call: Seq<u8>) -> Result<
    u8,
    MetadataError,
> {
    match position(pallet_names(m.pallets), pallet) {
        None => Err(MetadataError::NotFound),
        Some(i) => match m.pallets[i].calls {
            None => Err(MetadataError::NotFound),
            Some(ty) => match type_def_for(m, ty) {
                Ok(TypeDefModel::Variant(variants)) => match position(
                    variant_names(variants),
                    call,
                ) {
                    Some(k) => Ok(variants[k].index),
                    None => Err(MetadataError::NotFound),
                },
                _ => Err(MetadataError::NotFound),
            },
        },
    }
}

/// The strategies of the storage item `item` of the pallet `pallet`, one
/// per map key.
pub open spec fn storage_hashers_of(m: MetadataModel, pallet: Seq<u8>, item: Seq<u8>) -> Result<
    Seq<StorageHasher>,
    MetadataError,
> {
    match position(pallet_names(m.pallets), pallet) {
        None => Err(MetadataError::NotFound),
        Some(i) => match position(entry_names(m.pallets[i].storage), item) {
            Some(k) => Ok(m.pallets[i].storage[k].hashers),
            None => Err(MetadataError::NotFound),
        },
    }
}

/// The place of the first pallet called `name`.
pub fn find_pallet(pallets: &Vec<Pallet>, name: &[u8]) -> (r: Option<usize>)
    ensures
        r matches Some(i) ==> i < pallets@.len() && position(
            pallet_names(pallet_models(pallets@)),
            name@,
        ) == Some(i as int),
        r is None ==> position(pallet_names(pallet_models(pallets@)), name@) is None,
{
    let ghost names = pallet_names(pallet_models(pallets@));
    let n: usize = pallets.len();
    let mut i: usize = 0;
    while i < n
        invariant
            i <= n,
            n == pallets@.len(),
            names == pallet_names(pallet_models(pallets@)),
            forall|j: int| 0 <= j < i ==> #[trigger] names[j] != name@,
        decreases n - i,
    {
        if same_bytes(pallets[i].name.as_slice(), name) {
            proof {
                assert(names[i as int] == name@);
                lemma_position_found(names, name@, i as int);
            }
            return Some(i);
        }
        assert(names[i as int] != name@);
        i = i + 1;
    }
    proof {
        lemma_position_absent(names, name@);
    }
    None
}

/// The place of the first storage item called `name`.
pub fn find_entry(entries: &Vec<StorageEntry>, name: &[u8]) -> (r: Option<usize>)
    ensures
        r matches Some(i) ==> i < entries@.len() && position(
            entry_names(storage_models(entries@)),
            name@,
        ) == Some(i as int),
        r is None ==> position(entry_names(storage_models(entries@)), name@) is None,
{
    let ghost names = entry_names(storage_models(entries@));
    let n: usize = entries.len();
    let mut i: usize = 0;
    while i < n
        invariant
            i <= n,
            n == entries@.len(),
            names == entry_names(storage_models(entries@)),
            forall|j: int| 0 <= j < i ==> #[trigger] names[j] != name@,
        decreases n - i,
    {
        if same_bytes(entries[i].name.as_slice(), name) {
            proof {
                assert(names[i as int] == name@);
                lemma_position_found(names, name@, i as int);
            }
            return Some(i);
        }
        assert(names[i as int] != name@);
        i = i + 1;
    }
    proof {
        lemma_position_absent(names, name@);
    }
    None
}

/// The place of the first variant called `name`.
pub fn find_variant(variants: &Vec<VariantDef>, name: &[u8]) -> (r: Option<usize>)
    ensures
        r matches Some(i) ==> i < variants@.len() && position(
            variant_names(variant_models(variants@)),
            name@,
        ) == Some(i as int),
        r is None ==> position(variant_names(variant_models(variants@)), name@) is None,
{
    let ghost names = variant_names(variant_models(variants@));
    let n: usize = variants.len();
    let mut i: usize = 0;
    while i < n
        invariant
            i <= n,
            n == variants@.len(),
            names == variant_names(variant_models(variants@)),
            forall|j: int| 0 <= j < i ==> #[trigger] names[j] != name@,
        decreases n - i,
    {
        if same_bytes(variants[i].name.as_slice(), name) {
            proof {
                assert(names[i as int] == name@);
                lemma_position_found(names, name@, i as int);
            }
            return Some(i);
        }
        assert(names[i as int] != name@);
        i = i + 1;
    }
    proof {
        lemma_position_absent(names, name@);
    }
    None
}

/// The place of the first entry of the registry with the given id.
pub fn find_type(types: &Vec<TypeEntry>, id: u32) -> (r: Option<usize>)
    ensures
        r matches Some(i) ==> i < types@.len() && id_position(
            entry_ids(entry_models(types@)),
            id,
        ) == Some(i as int),
        r is None ==> id_position(entry_ids(entry_models(types@)), id) is None,
{
    let ghost ids = entry_ids(entry_models(types@));
    let n: usize = types.len();
    let mut i: usize = 0;
    while i < n
        invariant
            i <= n,
            n == types@.len(),
            ids == entry_ids(entry_models(types@)),
            forall|j: int| 0 <= j < i ==> #[trigger] ids[j] != id,
        decreases n - i,
    {
        if types[i].id == id {
            proof {
                assert(ids[i as int] == id);
                lemma_id_position_found(ids, id, i as int);
            }
            return Some(i);
        }
        assert(ids[i as int] != id);
        i = i + 1;
    }
    proof {
        lemma_id_position_absent(ids, id);
    }
    None
}

impl Metadata {
    /// The index that stands on the wire for the pallet called `name`.
    pub fn pallet_index(&self, name: &str) -> (r: Result<u8, MetadataError>)
        ensures
            r == pallet_index_of(self@, name.spec_bytes()),
    {
        match find_pallet(&self.pallets, name.as_bytes()) {
            Some(i) => {
                assert(self@.pallets[i as int] == self.pallets@[i as int]@);
                Ok(self.pallets[i].index)
            },
            None => Err(MetadataError::NotFound),
        }
    }

    /// The definition of the type with the given id.
    pub fn resolve_type(&self, id: u32) -> (r: Result<&TypeDef, MetadataError>)
        ensures
            match type_def_for(self@, id) {
                Ok(def) => r is Ok && r->Ok_0@ == def,
                Err(e) => r is Err && r->Err_0 == e,
            },
    {
        match find_type(&self.types, id) {
            Some(i) => {
                assert(self@.types[i as int] == self.types@[i as int]@);
                Ok(&self.types[i].def)
            },
            None => Err(MetadataError::NotFound),
        }
    }

    /// The index that stands on the wire for the call `call` of the pallet
    /// `pallet`.
    pub fn call_index(&self, pallet: &str, call: &str) -> (r: Result<u8, MetadataError>)
        ensures
            r == call_index_of(self@, pallet.spec_bytes(), call.spec_bytes()),
    {
        let i: usize = match find_pallet(&self.pallets, pallet.as_bytes()) {
            Some(i) => i,
            None => {
                return Err(MetadataError::NotFound);
            },
        };
        assert(self@.pallets[i as int] == self.pallets@[i as int]@);
        let ty: u32 = match self.pallets[i].calls {
            Some(ty) => ty,
            None => {
                return Err(MetadataError::NotFound);
            },
        };
        match self.resolve_type(ty) {
            Ok(TypeDef::Variant(variants)) => match find_variant(variants, call.as_bytes()) {
                Some(k) => {
                    assert(variant_models(variants@)[k as int] == variants@[k as int]@);
                    Ok(variants[k].index)
                },
                None => Err(MetadataError::NotFound),
            },
            _ => Err(MetadataError::NotFound),
        }
    }

    /// The strategies under which the keys of the storage item `item` of
    /// the pallet `pallet` enter its addresses: none for a plain item, one
    /// per key for a map.
    pub fn storage_hashers(&self, pallet: &str, item: &str) -> (r: Result<
        Vec<StorageHasher>,
        MetadataError,
    >)
        ensures
            match storage_hashers_of(self@, pallet.spec_bytes(), item.spec_bytes()) {
                Ok(hashers) => r is Ok && r->Ok_0@ == hashers,
                Err(e) => r is Err && r->Err_0 == e,
            },
    {
        let i: usize = match find_pallet(&self.pallets, pallet.as_bytes()) {
            Some(i) => i,
            None => {
                return Err(MetadataError::NotFound);
            },
        };
        assert(self@.pallets[i as int] == self.pallets@[i as int]@);
        let entries = &self.pallets[i].storage;
        match find_entry(entries, item.as_bytes()) {
            Some(k) => {
                assert(storage_models(entries@)[k as int] == entries@[k as int]@);
                let hashers = &entries[k].hashers;
                let mut out: Vec<StorageHasher> = Vec::new();
                let n: usize = hashers.len();
                let mut j: usize = 0;
                while j < n
                    invariant
                        j <= n,
                        n == hashers@.len(),
                        out@ == hashers@.take(j as int),
                    decreases n - j,
                {
                    out.push(hashers[j]);
                    assert(hashers@.take(j + 1) =~= hashers@.take(j as int).push(
                        hashers@[j as int],
                    ));
                    j = j + 1;
                }
                assert(hashers@.take(n as int) =~= hashers@);
                Ok(out)
            },
            None => Err(MetadataError::NotFound),
        }
    }
}

/// An unknown pallet name is reported as `NotFound`.
pub proof fn lemma_unknown_pallet(m: MetadataModel, name: Seq<u8>)
    requires
        forall|i: int| 0 <= i < m.pallets.len() ==> (#[trigger] m.pallets[i]).name != name,
    ensures
        pallet_index_of(m, name) == Err::<u8, MetadataError>(MetadataError::NotFound),
{
    let names = pallet_names(m.pallets);
    assert forall|j: int| 0 <= j < names.len() implies #[trigger] names[j] != name by {
        assert(names[j] == m.pallets[j].name);
    }
    lemma_position_absent(names, name);
}

/// In well-formed metadata the types that a pallet refers to are found.
pub proof fn lemma_references_resolve(m: MetadataModel, i: int, k: int)
    requires
        m.well_formed(),
        0 <= i < m.pallets.len(),
    ensures
        m.pallets[i].calls matches Some(calls) ==> type_def_for(m, calls) is Ok,
        m.pallets[i].events matches Some(events) ==> type_def_for(m, events) is Ok,
        m.pallets[i].errors matches Some(errors) ==> type_def_for(m, errors) is Ok,
        0 <= k < m.pallets[i].storage.len() ==> type_def_for(m, m.pallets[i].storage[k].value)
            is Ok,
        0 <= k < m.pallets[i].storage.len() ==> (m.pallets[i].storage[k].key matches Some(key)
            ==> type_def_for(m, key) is Ok),
{
    let pallet = m.pallets[i];
    assert(pallet_resolves(m.types, pallet));
    if 0 <= k < pallet.storage.len() {
        assert(entry_resolves(m.types, pallet.storage[k]));
    }
}

} // verus!
