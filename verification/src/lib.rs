//! Byte-exact encoding, storage-address derivation and extrinsic assembly
//! for Substrate-family chains, for talking to a node through its JSON-RPC
//! surface alone. Every function is verified against a mathematical model
//! of the wire format.
//!
//! - The codec: [`value`] holds the values and their types, [`codec`] what
//!   each is written and read as, [`compact`] and [`fixed`] the integers,
//!   [`laws`] what holds of the format as a whole.
//! - The hashers and the storage addresses: [`hasher`] and [`storage`].
//! - The metadata: [`metadata`] reads it, laid out as [`layout`] says, with
//!   the type registry of [`registry`]; [`lookup`] finds pallets, calls,
//!   storage items and types; [`describe`] turns registered types into
//!   types of the codec; [`compose`] makes calls and storage addresses
//!   from what the metadata declares.
//! - The extrinsics: [`extrinsic`] holds the call and the envelope,
//!   [`extensions`] and [`era`] what travels with the call and what is only
//!   signed, [`signer`] the keys, and [`builder`] takes one extrinsic from
//!   composition to submission.
//! - What crosses the RPC boundary as text: [`hexstr`] and [`number`]; what
//!   comes back as bytes: [`account`], [`digest`] and [`fees`].

pub mod account;
pub mod builder;
pub mod bytes;
pub mod codec;
pub mod compact;
pub mod compose;
pub mod describe;
pub mod digest;
pub mod era;
pub mod error;
pub mod extensions;
pub mod extrinsic;
pub mod fees;
pub mod fixed;
pub mod hasher;
pub mod hexstr;
pub mod laws;
pub mod layout;
pub mod lookup;
pub mod metadata;
pub mod number;
pub mod pick;
pub mod registry;
pub mod signer;
pub mod storage;
pub mod value;
