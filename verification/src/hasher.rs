//! The hash functions that storage addresses and signing payloads are built
//! from. The digests themselves are computed by the functions of
//! `sp_core::hashing`; this module names them, so that contracts can say
//! which digest stands where.

use vstd::prelude::*;

verus! {

/// The 64-bit xxHash digest of `data` with seed 0, little-endian.
pub uninterp spec fn twox_64(data: Seq<u8>) -> [u8; 8];

/// The two 64-bit xxHash digests of `data` with seeds 0 and 1.
pub uninterp spec fn twox_128(data: Seq<u8>) -> [u8; 16];

/// The four 64-bit xxHash digests of `data` with seeds 0 to 3.
pub uninterp spec fn twox_256(data: Seq<u8>) -> [u8; 32];

/// The 128-bit Blake2b digest of `data`.
pub uninterp spec fn blake2_128(data: Seq<u8>) -> [u8; 16];

/// The 256-bit Blake2b digest of `data`.
pub uninterp spec fn blake2_256(data: Seq<u8>) -> [u8; 32];

/// Calls `sp_core::hashing::twox_64`, which returns an array of 8 bytes.
/// Trusted: the result holds the bytes of the digest named `twox_64`.
#[verifier::external_body]
fn call_twox_64(data: &[u8]) -> (out: Vec<u8>)
    ensures
        out@ == twox_64(data@)@,
{
    sp_core::hashing::twox_64(data).to_vec()
}

/// Calls `sp_core::hashing::twox_128`, which returns an array of 16 bytes.
/// Trusted: the result holds the bytes of the digest named `twox_128`.
#[verifier::external_body]
fn call_twox_128(data: &[u8]) -> (out: Vec<u8>)
    ensures
        out@ == twox_128(data@)@,
{
    sp_core::hashing::twox_128(data).to_vec()
}

/// Calls `sp_core::hashing::twox_256`, which returns an array of 32 bytes.
/// Trusted: the result holds the bytes of the digest named `twox_256`.
#[verifier::external_body]
fn call_twox_256(data: &[u8]) -> (out: Vec<u8>)
    ensures
        out@ == twox_256(data@)@,
{
    sp_core::hashing::twox_256(data).to_vec()
}

/// Calls `sp_core::hashing::blake2_128`, which returns an array of 16
/// bytes. Trusted: the result holds the bytes of the digest named
/// `blake2_128`.
#[verifier::external_body]
fn call_blake2_128(data: &[u8]) -> (out: Vec<u8>)
    ensures
        out@ == blake2_128(data@)@,
{
    sp_core::hashing::blake2_128(data).to_vec()
}

/// Calls `sp_core::hashing::blake2_256`, which returns an array of 32
/// bytes. Trusted: the result holds the bytes of the digest named
/// `blake2_256`.
#[verifier::external_body]
fn call_blake2_256(data: &[u8]) -> (out: Vec<u8>)
    ensures
        out@ == blake2_256(data@)@,
{
    sp_core::hashing::blake2_256(data).to_vec()
}

/// The fast, non-cryptographic 128-bit hash used for pallet and item names.
pub fn fast128(data: &[u8]) -> (out: Vec<u8>)
    ensures
        out@ == twox_128(data@)@,
        out@.len() == 16,
{
    call_twox_128(data)
}

/// The cryptographic 128-bit hash used for map keys.
pub fn crypto128(data: &[u8]) -> (out: Vec<u8>)
    ensures
        out@ == blake2_128(data@)@,
        out@.len() == 16,
{
    call_blake2_128(data)
}

/// The cryptographic 256-bit hash used for map keys and for long signing
/// payloads.
pub fn crypto256(data: &[u8]) -> (out: Vec<u8>)
    ensures
        out@ == blake2_256(data@)@,
        out@.len() == 32,
{
    call_blake2_256(data)
}

/// How a map key enters a storage address.
#[derive(Clone, Copy, Debug, PartialEq, Eq, Structural)]
pub enum StorageHasher {
    /// The 128-bit Blake2b digest alone.
    Blake2_128,
    /// The 256-bit Blake2b digest alone.
    Blake2_256,
    /// The 128-bit Blake2b digest, then the key itself.
    Blake2_128Concat,
    /// The 128-bit xxHash digest alone.
    Twox128,
    /// The 256-bit xxHash digest alone.
    Twox256,
    /// The 64-bit xxHash digest, then the key itself.
    Twox64Concat,
    /// The key itself.
    Identity,
}

impl StorageHasher {
    /// Whether the key itself stands in the address, after its digest.
    pub open spec fn keeps_key(self) -> bool {
        self == StorageHasher::Blake2_128Concat || self == StorageHasher::Twox64Concat || self
            == StorageHasher::Identity
    }

    /// How many bytes of digest stand in front of the key, or in its place.
    pub open spec fn digest_len(self) -> nat {
        match self {
            StorageHasher::Blake2_128 => 16,
            StorageHasher::Blake2_256 => 32,
            StorageHasher::Blake2_128Concat => 16,
            StorageHasher::Twox128 => 16,
            StorageHasher::Twox256 => 32,
            StorageHasher::Twox64Concat => 8,
            StorageHasher::Identity => 0,
        }
    }

    /// The digest that stands in the address for `key`.
    pub open spec fn digest(self, key: Seq<u8>) -> Seq<u8> {
        match self {
            StorageHasher::Blake2_128 => blake2_128(key)@,
            StorageHasher::Blake2_256 => blake2_256(key)@,
            StorageHasher::Blake2_128Concat => blake2_128(key)@,
            StorageHasher::Twox128 => twox_128(key)@,
            StorageHasher::Twox256 => twox_256(key)@,
            StorageHasher::Twox64Concat => twox_64(key)@,
            StorageHasher::Identity => Seq::empty(),
        }
    }

    /// The segment of a storage address that stands for `key`.
    pub open spec fn segment(self, key: Seq<u8>) -> Seq<u8> {
        if self.keeps_key() {
            self.digest(key) + key
        } else {
            self.digest(key)
        }
    }

    /// A digest has the length that its strategy names.
    pub proof fn lemma_digest_len(self, key: Seq<u8>)
        ensures
            self.digest(key).len() == self.digest_len(),
            self.segment(key).len() == self.digest_len() + (if self.keeps_key() {
                key.len()
            } else {
                0
            }),
    {
    }

    /// Whether the key itself stands in the address, after its digest.
    pub fn is_concat(&self) -> (b: bool)
        ensures
            b == self.keeps_key(),
    {
        match self {
            StorageHasher::Blake2_128Concat => true,
            StorageHasher::Twox64Concat => true,
            StorageHasher::Identity => true,
            _ => false,
        }
    }

    /// How many bytes of digest stand in front of the key, or in its place.
    pub fn digest_length(&self) -> (n: usize)
        ensures
            n as nat == self.digest_len(),
    {
        match self {
            StorageHasher::Blake2_128 => 16,
            StorageHasher::Blake2_256 => 32,
            StorageHasher::Blake2_128Concat => 16,
            StorageHasher::Twox128 => 16,
            StorageHasher::Twox256 => 32,
            StorageHasher::Twox64Concat => 8,
            StorageHasher::Identity => 0,
        }
    }

    /// Appends the segment of a storage address that stands for `key`.
    pub fn push_segment(&self, out: &mut Vec<u8>, key: &[u8])
        ensures
            final(out)@ == old(out)@ + self.segment(key@),
    {
        let digest: Vec<u8> = match self {
            StorageHasher::Blake2_128 => call_blake2_128(key),
            StorageHasher::Blake2_256 => call_blake2_256(key),
            StorageHasher::Blake2_128Concat => call_blake2_128(key),
            StorageHasher::Twox128 => call_twox_128(key),
            StorageHasher::Twox256 => call_twox_256(key),
            StorageHasher::Twox64Concat => call_twox_64(key),
            StorageHasher::Identity => Vec::new(),
        };
        crate::bytes::push_bytes(out, digest.as_slice());
        if self.is_concat() {
            crate::bytes::push_bytes(out, key);
            assert(out@ =~= old(out)@ + self.segment(key@));
        }
    }
}

} // verus!
