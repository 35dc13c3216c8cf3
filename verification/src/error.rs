//! Error kinds returned by the library.

use vstd::prelude::*;

verus! {

/// Why a byte string could not be decoded.
#[derive(Clone, Copy, Debug, PartialEq, Eq, Structural)]
pub enum DecodeError {
    /// The input ends before the value does.
    UnexpectedEnd,
    /// A boolean byte other than `0x00` or `0x01`.
    InvalidBool,
    /// An option tag other than `0x00` or `0x01`.
    InvalidOptionTag,
    /// A variant index that no declared variant has.
    InvalidVariantTag,
    /// A compact integer written in a longer form than its magnitude needs.
    NonCanonicalCompact,
    /// A compact integer, or a length prefix, beyond what the target holds.
    OutOfRange,
    /// Bytes are left over where the value was to take them all.
    TrailingBytes,
}

/// Why a value could not be written under a declared type.
#[derive(Clone, Copy, Debug, PartialEq, Eq, Structural)]
pub enum EncodeError {
    /// The value is not of the declared type, or is longer than a length
    /// prefix can announce.
    ShapeMismatch,
}

/// Why metadata could not be read, or a lookup found nothing.
#[derive(Clone, Copy, Debug, PartialEq, Eq, Structural)]
pub enum MetadataError {
    /// The bytes cannot be read: they are no metadata of the supported
    /// version, or no value of the type that a storage key is declared with.
    Decode(DecodeError),
    /// The metadata is of another version, whose number this is.
    UnsupportedVersion(u8),
    /// There is no pallet, call, storage item or type of that name or id.
    NotFound,
    /// The type cannot be described to the codec (a bit sequence, the
    /// compact form of anything but an unsigned integer or a unit, a
    /// nesting deeper than was allowed for), or the signed extension is not
    /// known, or the map does not have as many keys as were given, or has
    /// more than two.
    Unsupported,
}

/// Why an extrinsic could not be built.
#[derive(Clone, Copy, Debug, PartialEq, Eq, Structural)]
pub enum BuildError {
    /// The nonce, the runtime version, the genesis hash or, for a mortal
    /// transaction, the checkpoint hash could not be fetched.
    DependencyUnavailable,
    /// There is no key to sign with.
    NoSigningKey,
    /// An argument is not of its declared type, or the era is malformed.
    Encode,
    /// The metadata does not know the pallet or the call, or cannot
    /// describe the type of an argument.
    Metadata(MetadataError),
    /// The event does not belong to the stage that the builder is in.
    UnexpectedEvent,
}

} // verus!
