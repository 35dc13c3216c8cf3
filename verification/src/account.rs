//! What the system pallet stores for each account.

use crate::error::DecodeError;
use crate::fixed::{le_value, lemma_le_value_bound, lemma_pow256_values, read_le};
use vstd::prelude::*;

verus! {

/// The balances of an account.
#[derive(Clone, Copy, Debug, PartialEq, Eq, Structural)]
pub struct AccountData {
    pub free: u128,
    pub reserved: u128,
    pub frozen: u128,
    pub flags: u128,
}

/// The record of an account: its transaction count, its reference counts
/// and its balances.
#[derive(Clone, Copy, Debug, PartialEq, Eq, Structural)]
pub struct AccountInfo {
    pub nonce: u32,
    pub consumers: u32,
    pub providers: u32,
    pub sufficients: u32,
    pub data: AccountData,
}

/// How many bytes the record of an account takes: four 32-bit counters and
/// four 128-bit balances.
pub const ACCOUNT_INFO_LEN: usize = 80;

/// The number that `width` bytes of `bytes` from `at` on spell.
pub open spec fn number_at(bytes: Seq<u8>, at: int, width: int) -> nat {
    le_value(bytes.subrange(at, at + width))
}

/// What reading `bytes` as the record of an account gives: the fields in
/// declared order, each little-endian; bytes beyond the record are left
/// unread.
pub open spec fn account_info_of(bytes: Seq<u8>) -> Result<AccountInfo, DecodeError> {
    if bytes.len() < 80 {
        Err(DecodeError::UnexpectedEnd)
    } else {
        Ok(
            AccountInfo {
                nonce: number_at(bytes, 0, 4) as u32,
                consumers: number_at(bytes, 4, 4) as u32,
                providers: number_at(bytes, 8, 4) as u32,
                sufficients: number_at(bytes, 12, 4) as u32,
                data: AccountData {
                    free: number_at(bytes, 16, 16) as u128,
                    reserved: number_at(bytes, 32, 16) as u128,
                    frozen: number_at(bytes, 48, 16) as u128,
                    flags: number_at(bytes, 64, 16) as u128,
                },
            },
        )
    }
}

/// Reads the 32-bit number at `at`.
fn word_at(bytes: &[u8], at: usize) -> (x: u32)
    requires
        at + 4 <= bytes@.len(),
    ensures
        x as nat == number_at(bytes@, at as int, 4),
{
    proof {
        lemma_pow256_values();
        lemma_le_value_bound(bytes@.subrange(at as int, at + 4));
    }
    read_le(bytes, at, 4) as u32
}

/// Reads the record of an account.
pub fn decode_account_info(bytes: &[u8]) -> (r: Result<AccountInfo, DecodeError>)
    ensures
        r == account_info_of(bytes@),
{
    if bytes.len() < ACCOUNT_INFO_LEN {
        return Err(DecodeError::UnexpectedEnd);
    }
    Ok(
        AccountInfo {
            nonce: word_at(bytes, 0),
            consumers: word_at(bytes, 4),
            providers: word_at(bytes, 8),
            sufficients: word_at(bytes, 12),
            data: AccountData {
                free: read_le(bytes, 16, 16),
                reserved: read_le(bytes, 32, 16),
                frozen: read_le(bytes, 48, 16),
                flags: read_le(bytes, 64, 16),
            },
        },
    )
}

} // verus!
