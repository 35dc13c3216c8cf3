//! The development accounts: their names, their public keys, their
//! signatures, and the addresses under which accounts are shown. The keys
//! and the signatures come from `sp_keyring`, the addresses from `sp_core`.

use crate::bytes::same_bytes;
use sp_core::crypto::Pair as _;
use vstd::prelude::*;
use vstd::string::StringSliceAdditionalSpecFns;

verus! {

/// The well-known development accounts.
#[derive(Clone, Copy, Debug, PartialEq, Eq, Structural)]
pub enum Account {
    Alice,
    Bob,
    Charlie,
    Dave,
    Eve,
    Ferdie,
}

/// The public key of a development account.
pub open spec fn keyring_public(account: Account) -> [u8; 32] {
    match account {
        Account::Alice => [
            0xd4u8, 0x35, 0x93, 0xc7, 0x15, 0xfd, 0xd3, 0x1c,
            0x61, 0x14, 0x1a, 0xbd, 0x04, 0xa9, 0x9f, 0xd6,
            0x82, 0x2c, 0x85, 0x58, 0x85, 0x4c, 0xcd, 0xe3,
            0x9a, 0x56, 0x84, 0xe7, 0xa5, 0x6d, 0xa2, 0x7d,
        ],
        Account::Bob => [
            0x8eu8, 0xaf, 0x04, 0x15, 0x16, 0x87, 0x73, 0x63,
            0x26, 0xc9, 0xfe, 0xa1, 0x7e, 0x25, 0xfc, 0x52,
            0x87, 0x61, 0x36, 0x93, 0xc9, 0x12, 0x90, 0x9c,
            0xb2, 0x26, 0xaa, 0x47, 0x94, 0xf2, 0x6a, 0x48,
        ],
        Account::Charlie => [
            0x90u8, 0xb5, 0xab, 0x20, 0x5c, 0x69, 0x74, 0xc9,
            0xea, 0x84, 0x1b, 0xe6, 0x88, 0x86, 0x46, 0x33,
            0xdc, 0x9c, 0xa8, 0xa3, 0x57, 0x84, 0x3e, 0xea,
            0xcf, 0x23, 0x14, 0x64, 0x99, 0x65, 0xfe, 0x22,
        ],
        Account::Dave => [
            0x30u8, 0x67, 0x21, 0x21, 0x1d, 0x54, 0x04, 0xbd,
            0x9d, 0xa8, 0x8e, 0x02, 0x04, 0x36, 0x0a, 0x1a,
            0x9a, 0xb8, 0xb8, 0x7c, 0x66, 0xc1, 0xbc, 0x2f,
            0xcd, 0xd3, 0x7f, 0x3c, 0x22, 0x22, 0xcc, 0x20,
        ],
        Account::Eve => [
            0xe6u8, 0x59, 0xa7, 0xa1, 0x62, 0x8c, 0xdd, 0x93,
            0xfe, 0xbc, 0x04, 0xa4, 0xe0, 0x64, 0x6e, 0xa2,
            0x0e, 0x9f, 0x5f, 0x0c, 0xe0, 0x97, 0xd9, 0xa0,
            0x52, 0x90, 0xd4, 0xa9, 0xe0, 0x54, 0xdf, 0x4e,
        ],
        Account::Ferdie => [
            0x1cu8, 0xbd, 0x2d, 0x43, 0x53, 0x0a, 0x44, 0x70,
            0x5a, 0xd0, 0x88, 0xaf, 0x31, 0x3e, 0x18, 0xf8,
            0x0b, 0x53, 0xef, 0x16, 0xb3, 0x61, 0x77, 0xcd,
            0x4b, 0x77, 0xb8, 0x46, 0xf2, 0xa5, 0xf0, 0x7c,
        ],
    }
}

/// Whether `signature` is a good sr25519 signature of `message` under the
/// public key `key`.
pub uninterp spec fn sr25519_verifies(key: [u8; 32], message: Seq<u8>, signature: [u8; 64]) -> bool;

/// The SS58 text of an account under a network prefix.
pub uninterp spec fn ss58_text(account: [u8; 32], prefix: u16) -> Seq<char>;

/// Calls `sp_keyring::AccountKeyring::to_raw_public` on the account of the
/// same name. Trusted: the result is the key that `keyring_public` lists
/// for that account.
#[verifier::external_body]
fn call_public(account: Account) -> (key: [u8; 32])
    ensures
        key == keyring_public(account),
{
    let who = match account {
        Account::Alice => sp_keyring::AccountKeyring::Alice,
        Account::Bob => sp_keyring::AccountKeyring::Bob,
        Account::Charlie => sp_keyring::AccountKeyring::Charlie,
        Account::Dave => sp_keyring::AccountKeyring::Dave,
        Account::Eve => sp_keyring::AccountKeyring::Eve,
        Account::Ferdie => sp_keyring::AccountKeyring::Ferdie,
    };
    who.to_raw_public()
}

/// Calls `sp_keyring::AccountKeyring::sign` on the account of the same
/// name. A signature is made with fresh randomness, so its bytes are not
/// said; the call panics on a message whose length does not fit 32 bits.
/// Trusted: the signature is good for the message under the account's
/// public key.
#[verifier::external_body]
fn call_sign(account: Account, message: &[u8]) -> (signature: [u8; 64])
    requires
        message@.len() <= u32::MAX,
    ensures
        sr25519_verifies(keyring_public(account), message@, signature),
{
    let who = match account {
        Account::Alice => sp_keyring::AccountKeyring::Alice,
        Account::Bob => sp_keyring::AccountKeyring::Bob,
        Account::Charlie => sp_keyring::AccountKeyring::Charlie,
        Account::Dave => sp_keyring::AccountKeyring::Dave,
        Account::Eve => sp_keyring::AccountKeyring::Eve,
        Account::Ferdie => sp_keyring::AccountKeyring::Ferdie,
    };
    who.sign(message).0
}

/// Calls `sp_core::sr25519::Pair::verify`, which panics on a message whose
/// length does not fit 32 bits. Trusted: the result says whether the
/// signature is good, as `sr25519_verifies` names it.
#[verifier::external_body]
fn call_verify(key: &[u8; 32], message: &[u8], signature: &[u8; 64]) -> (good: bool)
    requires
        message@.len() <= u32::MAX,
    ensures
        good == sr25519_verifies(*key, message@, *signature),
{
    sp_core::sr25519::Pair::verify(
        &sp_core::sr25519::Signature::from_raw(*signature),
        message,
        &sp_core::sr25519::Public::from_raw(*key),
    )
}

/// Calls `sp_core::crypto::Ss58Codec::to_ss58check_with_version` on the
/// account, with the format that `Ss58AddressFormat::custom` makes of the
/// prefix. Trusted: the result is the text named `ss58_text`.
#[verifier::external_body]
fn call_ss58(account: &[u8; 32], prefix: u16) -> (s: String)
    ensures
        s@ == ss58_text(*account, prefix),
{
    sp_core::crypto::Ss58Codec::to_ss58check_with_version(
        &sp_core::crypto::AccountId32::new(*account),
        sp_core::crypto::Ss58AddressFormat::custom(prefix),
    )
}

/// The development account of the given name, written with or without a
/// capital.
pub open spec fn named(name: Seq<u8>) -> Option<Account> {
    if name == "Alice".spec_bytes() || name == "alice".spec_bytes() {
        Some(Account::Alice)
    } else if name == "Bob".spec_bytes() || name == "bob".spec_bytes() {
        Some(Account::Bob)
    } else if name == "Charlie".spec_bytes() || name == "charlie".spec_bytes() {
        Some(Account::Charlie)
    } else if name == "Dave".spec_bytes() || name == "dave".spec_bytes() {
        Some(Account::Dave)
    } else if name == "Eve".spec_bytes() || name == "eve".spec_bytes() {
        Some(Account::Eve)
    } else if name == "Ferdie".spec_bytes() || name == "ferdie".spec_bytes() {
        Some(Account::Ferdie)
    } else {
        None
    }
}

/// The development account of the given name.
pub fn account_named(name: &str) -> (r: Option<Account>)
    ensures
        r == named(name.spec_bytes()),
{
    let bytes = name.as_bytes();
    if same_bytes(bytes, "Alice".as_bytes()) || same_bytes(bytes, "alice".as_bytes()) {
        Some(Account::Alice)
    } else if same_bytes(bytes, "Bob".as_bytes()) || same_bytes(bytes, "bob".as_bytes()) {
        Some(Account::Bob)
    } else if same_bytes(bytes, "Charlie".as_bytes()) || same_bytes(bytes, "charlie".as_bytes()) {
        Some(Account::Charlie)
    } else if same_bytes(bytes, "Dave".as_bytes()) || same_bytes(bytes, "dave".as_bytes()) {
        Some(Account::Dave)
    } else if same_bytes(bytes, "Eve".as_bytes()) || same_bytes(bytes, "eve".as_bytes()) {
        Some(Account::Eve)
    } else if same_bytes(bytes, "Ferdie".as_bytes()) || same_bytes(bytes, "ferdie".as_bytes()) {
        Some(Account::Ferdie)
    } else {
        None
    }
}

/// The public key of a development account.
pub fn public_key(account: Account) -> (key: [u8; 32])
    ensures
        key == keyring_public(account),
{
    call_public(account)
}

/// Signs `message` with the key of a development account: the signature
/// is good for the message under the account's public key.
pub fn sign(account: Account, message: &[u8]) -> (signature: [u8; 64])
    requires
        message@.len() <= u32::MAX,
    ensures
        sr25519_verifies(keyring_public(account), message@, signature),
{
    call_sign(account, message)
}

/// Whether `signature` is a good signature of `message` under the public
/// key `key`.
pub fn verify(key: &[u8; 32], message: &[u8], signature: &[u8; 64]) -> (good: bool)
    requires
        message@.len() <= u32::MAX,
    ensures
        good == sr25519_verifies(*key, message@, *signature),
{
    call_verify(key, message, signature)
}

/// The address under which `account` is shown on the network with the
/// given prefix.
pub fn address(account: &[u8; 32], prefix: u16) -> (s: String)
    ensures
        s@ == ss58_text(*account, prefix),
{
    call_ss58(account, prefix)
}

} // verus!
