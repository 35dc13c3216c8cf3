//! Storage addresses: where a pallet's item, or one entry of its map, lives
//! in the chain's key-value store.

use crate::bytes::{copy_range, push_bytes};
use crate::hasher::{fast128, twox_128, StorageHasher};
use vstd::prelude::*;
use vstd::string::StringSliceAdditionalSpecFns;

verus! {

/// One key of a storage map, with the strategy that the map declares for it.
#[derive(Debug, PartialEq, Eq)]
pub struct MapKey {
    pub hasher: StorageHasher,
    pub key: Vec<u8>,
}

impl View for MapKey {
    type V = (StorageHasher, Seq<u8>);

    open spec fn view(&self) -> (StorageHasher, Seq<u8>) {
        (self.hasher, self.key@)
    }
}

/// The models of the keys of a list, in order.
pub open spec fn key_models(keys: Seq<MapKey>) -> Seq<(StorageHasher, Seq<u8>)> {
    Seq::new(keys.len(), |i: int| keys[i]@)
}

/// The 32 bytes that every address of an item starts with.
pub open spec fn item_prefix(pallet: Seq<u8>, item: Seq<u8>) -> Seq<u8> {
    twox_128(pallet)@ + twox_128(item)@
}

/// The segments that stand for the map keys, in order.
pub open spec fn key_segments(keys: Seq<(StorageHasher, Seq<u8>)>) -> Seq<u8>
    decreases keys.len(),
{
    if keys.len() == 0 {
        Seq::empty()
    } else {
        key_segments(keys.drop_last()) + keys.last().0.segment(keys.last().1)
    }
}

/// The address of the entry of `item` in `pallet` under `keys`.
pub open spec fn storage_address(
    pallet: Seq<u8>,
    item: Seq<u8>,
    keys: Seq<(StorageHasher, Seq<u8>)>,
) -> Seq<u8> {
    item_prefix(pallet, item) + key_segments(keys)
}

/// How long the segments for `keys` are.
pub open spec fn segments_len(keys: Seq<(StorageHasher, Seq<u8>)>) -> nat
    decreases keys.len(),
{
    if keys.len() == 0 {
        0
    } else {
        let last = keys.last();
        segments_len(keys.drop_last()) + last.0.digest_len() + (if last.0.keeps_key() {
            last.1.len()
        } else {
            0
        })
    }
}

/// The segments are as long as their strategies and keys say.
pub proof fn lemma_segments_len(keys: Seq<(StorageHasher, Seq<u8>)>)
    ensures
        key_segments(keys).len() == segments_len(keys),
    decreases keys.len(),
{
    if keys.len() > 0 {
        lemma_segments_len(keys.drop_last());
        keys.last().0.lemma_digest_len(keys.last().1);
    }
}

/// The address of a plain item is its prefix.
pub proof fn lemma_plain_layout(pallet: Seq<u8>, item: Seq<u8>)
    ensures
        storage_address(pallet, item, Seq::empty()) == item_prefix(pallet, item),
        item_prefix(pallet, item).len() == 32,
        item_prefix(pallet, item).subrange(0, 16) == twox_128(pallet)@,
        item_prefix(pallet, item).subrange(16, 32) == twox_128(item)@,
{
    let prefix = item_prefix(pallet, item);
    assert(storage_address(pallet, item, Seq::empty()) =~= prefix);
    assert(prefix.subrange(0, 16) =~= twox_128(pallet)@);
    assert(prefix.subrange(16, 32) =~= twox_128(item)@);
}

/// The address of an entry of a map: the prefix, then the one segment.
pub proof fn lemma_map_layout(pallet: Seq<u8>, item: Seq<u8>, hasher: StorageHasher, key: Seq<u8>)
    ensures
        storage_address(pallet, item, seq![(hasher, key)]) == item_prefix(pallet, item)
            + hasher.segment(key),
        storage_address(pallet, item, seq![(hasher, key)]).len() == 32 + hasher.segment(key).len(),
{
    let keys = seq![(hasher, key)];
    assert(keys.drop_last() =~= Seq::empty());
    assert(key_segments(keys.drop_last()) =~= Seq::<u8>::empty());
    assert(key_segments(keys) =~= hasher.segment(key));
    lemma_plain_layout(pallet, item);
}

/// The address of an entry of a double map falls into six parts: the two
/// name digests of 16 bytes each, the digest of the first key and that key
/// (where its strategy keeps it), the digest of the second key and that key.
#[verifier::rlimit(30)]
pub proof fn lemma_double_map_layout(
    pallet: Seq<u8>,
    item: Seq<u8>,
    first: (StorageHasher, Seq<u8>),
    second: (StorageHasher, Seq<u8>),
)
    ensures
        ({
            let address = storage_address(pallet, item, seq![first, second]);
            let a = 32 + first.0.digest_len();
            let b = a + (if first.0.keeps_key() {
                first.1.len()
            } else {
                0
            });
            let c = b + second.0.digest_len();
            let d = c + (if second.0.keeps_key() {
                second.1.len()
            } else {
                0
            });
            &&& address == item_prefix(pallet, item) + first.0.segment(first.1) + second.0.segment(
                second.1,
            )
            &&& address.len() == d
            &&& address.subrange(0, 16) == twox_128(pallet)@
            &&& address.subrange(16, 32) == twox_128(item)@
            &&& address.subrange(32, a as int) == first.0.digest(first.1)
            &&& first.0.keeps_key() ==> address.subrange(a as int, b as int) == first.1
            &&& address.subrange(b as int, c as int) == second.0.digest(second.1)
            &&& second.0.keeps_key() ==> address.subrange(c as int, d as int) == second.1
        }),
{
    let keys = seq![first, second];
    let address = storage_address(pallet, item, keys);
    assert(keys.drop_last() =~= seq![first]);
    assert(seq![first].drop_last() =~= Seq::empty());
    assert(key_segments(seq![first].drop_last()) =~= Seq::<u8>::empty());
    assert(key_segments(seq![first]) =~= first.0.segment(first.1));
    first.0.lemma_digest_len(first.1);
    second.0.lemma_digest_len(second.1);
    let a = 32 + first.0.digest_len();
    let b = a + (if first.0.keeps_key() {
        first.1.len()
    } else {
        0
    });
    let c = b + second.0.digest_len();
    let d = c + (if second.0.keeps_key() {
        second.1.len()
    } else {
        0
    });
    assert(address =~= item_prefix(pallet, item) + first.0.segment(first.1) + second.0.segment(
        second.1,
    ));
    assert(address.subrange(0, 16) =~= twox_128(pallet)@);
    assert(address.subrange(16, 32) =~= twox_128(item)@);
    assert(address.subrange(32, a as int) =~= first.0.digest(first.1));
    if first.0.keeps_key() {
        assert(address.subrange(a as int, b as int) =~= first.1);
    }
    assert(address.subrange(b as int, c as int) =~= second.0.digest(second.1));
    if second.0.keeps_key() {
        assert(address.subrange(c as int, d as int) =~= second.1);
    }
}

/// The same pallet, item and keys give the same address.
pub proof fn lemma_address_deterministic(
    pallet1: Seq<u8>,
    item1: Seq<u8>,
    keys1: Seq<(StorageHasher, Seq<u8>)>,
    pallet2: Seq<u8>,
    item2: Seq<u8>,
    keys2: Seq<(StorageHasher, Seq<u8>)>,
)
    requires
        pallet1 == pallet2,
        item1 == item2,
        keys1 == keys2,
    ensures
        storage_address(pallet1, item1, keys1) == storage_address(pallet2, item2, keys2),
{
}

/// Where the last key's strategy keeps the key, the address ends in the key:
/// it can be read back from a scanned address by its width.
pub proof fn lemma_last_key_readable(
    pallet: Seq<u8>,
    item: Seq<u8>,
    keys: Seq<(StorageHasher, Seq<u8>)>,
)
    requires
        keys.len() > 0,
        keys.last().0.keeps_key(),
    ensures
        ({
            let address = storage_address(pallet, item, keys);
            &&& address.len() >= 32 + keys.last().1.len()
            &&& address.subrange(address.len() - keys.last().1.len(), address.len() as int)
                == keys.last().1
        }),
{
    let address = storage_address(pallet, item, keys);
    let key = keys.last().1;
    assert(address.subrange(address.len() - key.len(), address.len() as int) =~= key);
}

/// The segments of two lists of keys, one after the other, are the
/// segments of the one list that holds both.
pub proof fn lemma_segments_concat(
    front: Seq<(StorageHasher, Seq<u8>)>,
    back: Seq<(StorageHasher, Seq<u8>)>,
)
    ensures
        key_segments(front + back) == key_segments(front) + key_segments(back),
    decreases back.len(),
{
    if back.len() == 0 {
        assert(front + back =~= front);
        assert(key_segments(front) + key_segments(back) =~= key_segments(front));
    } else {
        let all = front + back;
        assert(all.drop_last() =~= front + back.drop_last());
        assert(all.last() == back.last());
        lemma_segments_concat(front, back.drop_last());
        assert(key_segments(all) =~= key_segments(front) + key_segments(back));
    }
}

/// Two byte strings with the same front and the same back are the same
/// exactly where their middles are.
pub proof fn lemma_middle_decides(front: Seq<u8>, x: Seq<u8>, y: Seq<u8>, back: Seq<u8>)
    ensures
        front + x + back == front + y + back <==> x == y,
{
    let a = front + x + back;
    let b = front + y + back;
    if a == b {
        assert(a.len() == b.len());
        assert(x =~= a.subrange(front.len() as int, (front.len() + x.len()) as int));
        assert(y =~= b.subrange(front.len() as int, (front.len() + y.len()) as int));
    }
}

/// A segment whose strategy keeps the key tells the key: two keys with the
/// same segment are the same key.
pub proof fn lemma_kept_key_in_segment(hasher: StorageHasher, key: Seq<u8>, other: Seq<u8>)
    requires
        hasher.keeps_key(),
        hasher.segment(key) == hasher.segment(other),
    ensures
        key == other,
{
    hasher.lemma_digest_len(key);
    hasher.lemma_digest_len(other);
    let n = hasher.digest_len() as int;
    let s = hasher.segment(key);
    assert(key =~= s.subrange(n, s.len() as int));
    assert(other =~= s.subrange(n, s.len() as int));
}

/// A change of the pallet name stays in the first 16 bytes of the address:
/// the length and every byte from the 16th on are as before, and the
/// address is another exactly where the digest of the name is.
pub proof fn lemma_pallet_change_is_local(
    pallet: Seq<u8>,
    other: Seq<u8>,
    item: Seq<u8>,
    keys: Seq<(StorageHasher, Seq<u8>)>,
)
    ensures
        ({
            let a = storage_address(pallet, item, keys);
            let b = storage_address(other, item, keys);
            &&& a.len() == b.len()
            &&& a.subrange(0, 16) == twox_128(pallet)@
            &&& b.subrange(0, 16) == twox_128(other)@
            &&& a.subrange(16, a.len() as int) == b.subrange(16, b.len() as int)
            &&& a != b <==> twox_128(pallet)@ != twox_128(other)@
        }),
{
    let a = storage_address(pallet, item, keys);
    let b = storage_address(other, item, keys);
    let back = twox_128(item)@ + key_segments(keys);
    let none = Seq::<u8>::empty();
    assert(a =~= none + twox_128(pallet)@ + back);
    assert(b =~= none + twox_128(other)@ + back);
    lemma_middle_decides(none, twox_128(pallet)@, twox_128(other)@, back);
    assert(a.subrange(0, 16) =~= twox_128(pallet)@);
    assert(b.subrange(0, 16) =~= twox_128(other)@);
    assert(a.subrange(16, a.len() as int) =~= back);
    assert(b.subrange(16, b.len() as int) =~= back);
}

/// A change of the item name stays in the second 16 bytes of the address:
/// the length, the first 16 bytes and every byte from the 32nd on are as
/// before, and the address is another exactly where the digest of the name
/// is.
pub proof fn lemma_item_change_is_local(
    pallet: Seq<u8>,
    item: Seq<u8>,
    other: Seq<u8>,
    keys: Seq<(StorageHasher, Seq<u8>)>,
)
    ensures
        ({
            let a = storage_address(pallet, item, keys);
            let b = storage_address(pallet, other, keys);
            &&& a.len() == b.len()
            &&& a.subrange(0, 16) == b.subrange(0, 16)
            &&& a.subrange(16, 32) == twox_128(item)@
            &&& b.subrange(16, 32) == twox_128(other)@
            &&& a.subrange(32, a.len() as int) == b.subrange(32, b.len() as int)
            &&& a != b <==> twox_128(item)@ != twox_128(other)@
        }),
{
    let a = storage_address(pallet, item, keys);
    let b = storage_address(pallet, other, keys);
    let front = twox_128(pallet)@;
    let back = key_segments(keys);
    assert(a =~= front + twox_128(item)@ + back);
    assert(b =~= front + twox_128(other)@ + back);
    lemma_middle_decides(front, twox_128(item)@, twox_128(other)@, back);
    assert(a.subrange(0, 16) =~= front);
    assert(b.subrange(0, 16) =~= front);
    assert(a.subrange(16, 32) =~= twox_128(item)@);
    assert(b.subrange(16, 32) =~= twox_128(other)@);
    assert(a.subrange(32, a.len() as int) =~= back);
    assert(b.subrange(32, b.len() as int) =~= back);
}

/// A change of one map key stays in the segment of that key: what stands
/// before the segment and what stands after it are as before, and the
/// address is another exactly where the segment is. Where the key's
/// strategy keeps the key, every other key gives another address; where it
/// does not, the address is another exactly where the digest is.
pub proof fn lemma_key_change_is_local(
    pallet: Seq<u8>,
    item: Seq<u8>,
    before: Seq<(StorageHasher, Seq<u8>)>,
    hasher: StorageHasher,
    key: Seq<u8>,
    other: Seq<u8>,
    after: Seq<(StorageHasher, Seq<u8>)>,
)
    ensures
        ({
            let front = item_prefix(pallet, item) + key_segments(before);
            let back = key_segments(after);
            let a = storage_address(pallet, item, before.push((hasher, key)) + after);
            let b = storage_address(pallet, item, before.push((hasher, other)) + after);
            &&& a == front + hasher.segment(key) + back
            &&& b == front + hasher.segment(other) + back
            &&& a != b <==> hasher.segment(key) != hasher.segment(other)
            &&& hasher.keeps_key() && key != other ==> a != b
            &&& !hasher.keeps_key() ==> (a != b <==> hasher.digest(key) != hasher.digest(other))
        }),
{
    let front = item_prefix(pallet, item) + key_segments(before);
    let back = key_segments(after);
    let a = storage_address(pallet, item, before.push((hasher, key)) + after);
    let b = storage_address(pallet, item, before.push((hasher, other)) + after);
    lemma_segments_concat(before.push((hasher, key)), after);
    lemma_segments_concat(before.push((hasher, other)), after);
    assert(before.push((hasher, key)).drop_last() =~= before);
    assert(before.push((hasher, other)).drop_last() =~= before);
    assert(a =~= front + hasher.segment(key) + back);
    assert(b =~= front + hasher.segment(other) + back);
    lemma_middle_decides(front, hasher.segment(key), hasher.segment(other), back);
    if hasher.keeps_key() && hasher.segment(key) == hasher.segment(other) {
        lemma_kept_key_in_segment(hasher, key, other);
    }
}

/// The 32 bytes that every address of the item starts with, from the bytes
/// of the two names.
pub fn prefix_from(pallet: &[u8], item: &[u8]) -> (out: Vec<u8>)
    ensures
        out@ == item_prefix(pallet@, item@),
        out@.len() == 32,
{
    let mut out: Vec<u8> = fast128(pallet);
    let second: Vec<u8> = fast128(item);
    push_bytes(&mut out, second.as_slice());
    out
}

/// The 32 bytes that every address of `item` in `pallet` starts with.
pub fn storage_prefix(pallet: &str, item: &str) -> (out: Vec<u8>)
    ensures
        out@ == item_prefix(pallet.spec_bytes(), item.spec_bytes()),
        out@.len() == 32,
{
    prefix_from(pallet.as_bytes(), item.as_bytes())
}

/// The address of the entry under `keys`, from the bytes of the two names.
pub fn build_from(pallet: &[u8], item: &[u8], keys: &Vec<MapKey>) -> (out: Vec<u8>)
    requires
        keys@.len() <= 2,
    ensures
        out@ == storage_address(pallet@, item@, key_models(keys@)),
        out@.len() == 32 + segments_len(key_models(keys@)),
{
    let mut out: Vec<u8> = prefix_from(pallet, item);
    let n: usize = keys.len();
    let ghost all = key_models(keys@);
    let ghost prefix = out@;
    let mut i: usize = 0;
    assert(out@ =~= prefix + key_segments(all.take(0)));
    while i < n
        invariant
            i <= n,
            n == keys@.len(),
            all == key_models(keys@),
            out@ == prefix + key_segments(all.take(i as int)),
        decreases n - i,
    {
        let k = &keys[i];
        k.hasher.push_segment(&mut out, k.key.as_slice());
        proof {
            let upto = all.take(i + 1);
            assert(upto.drop_last() =~= all.take(i as int));
            assert(upto.last() == k@);
            assert(out@ =~= prefix + key_segments(upto));
        }
        i = i + 1;
    }
    proof {
        assert(all.take(n as int) =~= all);
        lemma_segments_len(all);
    }
    out
}

/// The address of the entry of `item` in `pallet` under `keys`: none for a
/// plain item, one for a map, two for a double map.
pub fn build(pallet: &str, item: &str, keys: &Vec<MapKey>) -> (out: Vec<u8>)
    requires
        keys@.len() <= 2,
    ensures
        out@ == storage_address(pallet.spec_bytes(), item.spec_bytes(), key_models(keys@)),
        out@.len() == 32 + segments_len(key_models(keys@)),
{
    build_from(pallet.as_bytes(), item.as_bytes(), keys)
}

/// The last `width` bytes of a scanned address: the last key of the entry,
/// where the map's last strategy keeps keys of that width. There is none
/// where the address is too short to hold the prefix and such a key.
pub fn trailing_key(address: &[u8], width: usize) -> (r: Option<Vec<u8>>)
    ensures
        r is Some <==> address@.len() >= 32 + width,
        r matches Some(key) ==> key@ == address@.subrange(
            address@.len() - width,
            address@.len() as int,
        ),
{
    let len: usize = address.len();
    if len < 32 || len - 32 < width {
        None
    } else {
        Some(copy_range(address, len - width, len))
    }
}

/// The parts of the address of an entry of a double map.
#[derive(Debug, PartialEq, Eq)]
pub struct DoubleMapParts {
    pub pallet_digest: Vec<u8>,
    pub item_digest: Vec<u8>,
    pub first_digest: Vec<u8>,
    pub first_key: Vec<u8>,
    pub second_digest: Vec<u8>,
    pub second_key: Vec<u8>,
}

/// Whether `parts` are the parts of `address` for a double map whose first
/// strategy keeps keys of `width` bytes and whose second keeps its keys.
pub open spec fn parts_of(
    address: Seq<u8>,
    first: StorageHasher,
    width: nat,
    second: StorageHasher,
    parts: DoubleMapParts,
) -> bool {
    let a = 32 + first.digest_len();
    let b = a + width;
    let c = b + second.digest_len();
    &&& parts.pallet_digest@ == address.subrange(0, 16)
    &&& parts.item_digest@ == address.subrange(16, 32)
    &&& parts.first_digest@ == address.subrange(32, a as int)
    &&& parts.first_key@ == address.subrange(a as int, b as int)
    &&& parts.second_digest@ == address.subrange(b as int, c as int)
    &&& parts.second_key@ == address.subrange(c as int, address.len() as int)
}

/// Takes the address of an entry of a double map apart, where both
/// strategies keep their keys and the first key is `width` bytes wide.
/// There are no parts where a strategy does not keep its key, or where the
/// address is too short for the digests and the first key.
pub fn split_double_map(
    address: &[u8],
    first: StorageHasher,
    width: usize,
    second: StorageHasher,
) -> (r: Option<DoubleMapParts>)
    ensures
        r is Some <==> first.keeps_key() && second.keeps_key() && address@.len() >= 32
            + first.digest_len() + width + second.digest_len(),
        r matches Some(parts) ==> parts_of(address@, first, width as nat, second, parts),
{
    if !first.is_concat() || !second.is_concat() {
        return None;
    }
    let len: usize = address.len();
    let d1: usize = first.digest_length();
    let d2: usize = second.digest_length();
    if len < 32 + d1 + d2 || len - (32 + d1 + d2) < width {
        return None;
    }
    let a: usize = 32 + d1;
    let b: usize = a + width;
    let c: usize = b + d2;
    Some(
        DoubleMapParts {
            pallet_digest: copy_range(address, 0, 16),
            item_digest: copy_range(address, 16, 32),
            first_digest: copy_range(address, 32, a),
            first_key: copy_range(address, a, b),
            second_digest: copy_range(address, b, c),
            second_key: copy_range(address, c, len),
        },
    )
}

/// Taking apart the address that was built from two kept keys gives the two
/// keys and their digests back.
pub proof fn lemma_split_of_built(
    pallet: Seq<u8>,
    item: Seq<u8>,
    first: (StorageHasher, Seq<u8>),
    second: (StorageHasher, Seq<u8>),
    parts: DoubleMapParts,
)
    requires
        first.0.keeps_key(),
        second.0.keeps_key(),
        parts_of(
            storage_address(pallet, item, seq![first, second]),
            first.0,
            first.1.len(),
            second.0,
            parts,
        ),
    ensures
        parts.pallet_digest@ == twox_128(pallet)@,
        parts.item_digest@ == twox_128(item)@,
        parts.first_digest@ == first.0.digest(first.1),
        parts.first_key@ == first.1,
        parts.second_digest@ == second.0.digest(second.1),
        parts.second_key@ == second.1,
{
    lemma_double_map_layout(pallet, item, first, second);
}

} // verus!
