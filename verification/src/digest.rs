//! The items of a block header's digest.

use crate::bytes::copy_range;
use crate::compact::{compact_parse, decode_compact_at};
use crate::error::DecodeError;
use vstd::prelude::*;

verus! {

/// One item of a digest.
#[derive(Debug, PartialEq, Eq)]
pub enum DigestItem {
    /// Anything else that a runtime wants to say.
    Other(Vec<u8>),
    /// A message from the runtime to the consensus engine named by four
    /// bytes.
    Consensus(Vec<u8>, Vec<u8>),
    /// The seal that the consensus engine put on the block.
    Seal(Vec<u8>, Vec<u8>),
    /// A message from the consensus engine to the runtime.
    PreRuntime(Vec<u8>, Vec<u8>),
    /// The runtime code or its heap pages have changed.
    RuntimeEnvironmentUpdated,
}

/// The model of a digest item.
pub enum DigestModel {
    Other(Seq<u8>),
    Consensus(Seq<u8>, Seq<u8>),
    Seal(Seq<u8>, Seq<u8>),
    PreRuntime(Seq<u8>, Seq<u8>),
    RuntimeEnvironmentUpdated,
}

impl View for DigestItem {
    type V = DigestModel;

    open spec fn view(&self) -> DigestModel {
        match *self {
            DigestItem::Other(data) => DigestModel::Other(data@),
            DigestItem::Consensus(engine, data) => DigestModel::Consensus(engine@, data@),
            DigestItem::Seal(engine, data) => DigestModel::Seal(engine@, data@),
            DigestItem::PreRuntime(engine, data) => DigestModel::PreRuntime(engine@, data@),
            DigestItem::RuntimeEnvironmentUpdated => DigestModel::RuntimeEnvironmentUpdated,
        }
    }
}

/// What reading a byte sequence with its length in front gives.
pub open spec fn prefixed_bytes(input: Seq<u8>) -> Result<(Seq<u8>, nat), DecodeError> {
    match compact_parse(input) {
        Err(e) => Err(e),
        Ok((n, used)) => if n > 0xffff_ffff {
            Err(DecodeError::OutOfRange)
        } else if input.len() < used + n {
            Err(DecodeError::UnexpectedEnd)
        } else {
            Ok((input.subrange(used as int, (used + n) as int), used + n))
        },
    }
}

/// What reading `input` as a digest item gives. The first byte tells the
/// kind: 0 other, 4 consensus, 5 seal, 6 pre-runtime, 8 environment
/// updated. The three kinds in the middle carry the four bytes that name
/// the engine, then their data.
pub open spec fn digest_item_of(input: Seq<u8>) -> Result<DigestModel, DecodeError> {
    if input.len() == 0 {
        Err(DecodeError::UnexpectedEnd)
    } else if input[0] == 0 {
        match prefixed_bytes(input.skip(1)) {
            Err(e) => Err(e),
            Ok((data, _)) => Ok(DigestModel::Other(data)),
        }
    } else if input[0] == 4 || input[0] == 5 || input[0] == 6 {
        if input.len() < 5 {
            Err(DecodeError::UnexpectedEnd)
        } else {
            match prefixed_bytes(input.skip(5)) {
                Err(e) => Err(e),
                Ok((data, _)) => {
                    let engine = input.subrange(1, 5);
                    if input[0] == 4 {
                        Ok(DigestModel::Consensus(engine, data))
                    } else if input[0] == 5 {
                        Ok(DigestModel::Seal(engine, data))
                    } else {
                        Ok(DigestModel::PreRuntime(engine, data))
                    }
                },
            }
        }
    } else if input[0] == 8 {
        Ok(DigestModel::RuntimeEnvironmentUpdated)
    } else {
        Err(DecodeError::InvalidVariantTag)
    }
}

/// Reads the byte sequence with its length in front at `start`.
fn read_prefixed(input: &[u8], start: usize) -> (r: Result<Vec<u8>, DecodeError>)
    requires
        start <= input@.len(),
    ensures
        match prefixed_bytes(input@.skip(start as int)) {
            Ok((data, _)) => r is Ok && r->Ok_0@ == data,
            Err(e) => r is Err && r->Err_0 == e,
        },
{
    let ghost tail = input@.skip(start as int);
    match decode_compact_at(input, start) {
        Err(e) => Err(e),
        Ok((n, used)) => {
            if n > 0xffff_ffff {
                return Err(DecodeError::OutOfRange);
            }
            let count: usize = n as usize;
            if input.len() - start - used < count {
                return Err(DecodeError::UnexpectedEnd);
            }
            let data = copy_range(input, start + used, start + used + count);
            assert(data@ =~= tail.subrange(used as int, used + count));
            Ok(data)
        },
    }
}

/// Reads a digest item.
pub fn decode_digest_item(input: &[u8]) -> (r: Result<DigestItem, DecodeError>)
    ensures
        match digest_item_of(input@) {
            Ok(item) => r is Ok && r->Ok_0@ == item,
            Err(e) => r is Err && r->Err_0 == e,
        },
{
    if input.len() == 0 {
        return Err(DecodeError::UnexpectedEnd);
    }
    let kind: u8 = input[0];
    if kind == 0 {
        match read_prefixed(input, 1) {
            Err(e) => Err(e),
            Ok(data) => Ok(DigestItem::Other(data)),
        }
    } else if kind == 4 || kind == 5 || kind == 6 {
        if input.len() < 5 {
            return Err(DecodeError::UnexpectedEnd);
        }
        let engine: Vec<u8> = copy_range(input, 1, 5);
        match read_prefixed(input, 5) {
            Err(e) => Err(e),
            Ok(data) => {
                if kind == 4 {
                    Ok(DigestItem::Consensus(engine, data))
                } else if kind == 5 {
                    Ok(DigestItem::Seal(engine, data))
                } else {
                    Ok(DigestItem::PreRuntime(engine, data))
                }
            },
        }
    } else if kind == 8 {
        Ok(DigestItem::RuntimeEnvironmentUpdated)
    } else {
        Err(DecodeError::InvalidVariantTag)
    }
}

} // verus!
