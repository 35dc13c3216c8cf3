use parity_scale_codec::{Compact, Encode};
use sp_runtime::generic::Era as TheirEra;
use sp_runtime::{AccountId32, MultiAddress, MultiSignature};
use substrate_wire::compact::encode_compact;
use substrate_wire::era::Era;
use substrate_wire::error::EncodeError;
use substrate_wire::extensions::{standard_layout, AdditionalSigned, ExtensionKind, ExtraData};
use substrate_wire::extrinsic::{
    build_signing_payload, encode_extrinsic, signed_extrinsic, signing_input,
    unsigned_extrinsic, SignaturePart, UnsignedCall,
};
use substrate_wire::hasher::crypto256;
use substrate_wire::signer::{public_key, Account};
use substrate_wire::value::{TypeDescriptor, Value};

fn bob() -> [u8; 32] {
    public_key(Account::Bob)
}

fn alice() -> [u8; 32] {
    public_key(Account::Alice)
}

/// An account address as a call argument: variant 0 holding the account.
fn account_address(account: [u8; 32]) -> Value {
    Value::Variant(0, vec![Value::Array(account.to_vec())])
}

fn transfer_to_bob() -> UnsignedCall {
    UnsignedCall {
        pallet_index: 5,
        call_index: 0,
        args: vec![account_address(bob()), Value::Compact(123456789012345)],
    }
}

#[test]
fn transfer_call_bytes() {
    let call = transfer_to_bob();
    let mut expected = vec![0x05, 0x00];
    expected.push(0x00);
    expected.extend_from_slice(&bob());
    expected.extend_from_slice(&encode_compact(123456789012345));
    assert_eq!(call.encode(), expected);

    let theirs = (
        5u8,
        0u8,
        MultiAddress::<AccountId32, u32>::Id(AccountId32::new(bob())),
        Compact(123456789012345u128),
    )
        .encode();
    assert_eq!(call.encode(), theirs);
    assert_eq!(call.encode().len(), 2 + 33 + 7);
}

#[test]
fn call_without_arguments_is_two_bytes() {
    let call = UnsignedCall { pallet_index: 0, call_index: 7, args: vec![] };
    assert_eq!(call.encode(), vec![0x00, 0x07]);
}

#[test]
fn call_arguments_are_checked_against_declared_types() {
    let address = TypeDescriptor::Variant(vec![
        Some(vec![TypeDescriptor::Array(32)]),
        Some(vec![TypeDescriptor::Compact]),
    ]);
    let declared = vec![address, TypeDescriptor::Compact];
    let args = vec![account_address(bob()), Value::Compact(1)];
    let call = UnsignedCall::new(5, 0, args, &declared).unwrap();
    assert_eq!(call.pallet_index, 5);
    assert_eq!(call.call_index, 0);
    assert_eq!(call.args.len(), 2);

    let wrong_kind = vec![account_address(bob()), Value::U128(1)];
    assert_eq!(
        UnsignedCall::new(5, 0, wrong_kind, &declared).unwrap_err(),
        EncodeError::ShapeMismatch
    );
    let too_few = vec![account_address(bob())];
    assert_eq!(
        UnsignedCall::new(5, 0, too_few, &declared).unwrap_err(),
        EncodeError::ShapeMismatch
    );
    let short_account = vec![
        Value::Variant(0, vec![Value::Array(vec![0u8; 31])]),
        Value::Compact(1),
    ];
    assert_eq!(
        UnsignedCall::new(5, 0, short_account, &declared).unwrap_err(),
        EncodeError::ShapeMismatch
    );
}

#[test]
fn extra_data_bytes() {
    let extra = ExtraData { era: Era::Immortal, nonce: 3, tip: 500000000000000 };
    let mut out = Vec::new();
    extra.push_bytes(&standard_layout(), &mut out);
    let theirs = (TheirEra::Immortal, Compact(3u32), Compact(500000000000000u128)).encode();
    assert_eq!(out, theirs);

    let mortal = ExtraData { era: Era::Mortal { period: 64, phase: 42 }, nonce: 0, tip: 0 };
    let mut out = Vec::new();
    mortal.push_bytes(&standard_layout(), &mut out);
    assert_eq!(out, (TheirEra::Mortal(64, 42), Compact(0u32), Compact(0u128)).encode());
    assert_eq!(out, vec![0xa5, 0x02, 0x00, 0x00]);
}

#[test]
fn additional_signed_bytes() {
    let genesis = [0x11u8; 32];
    let checkpoint = [0x22u8; 32];
    let additional = AdditionalSigned {
        spec_version: 9110,
        transaction_version: 8,
        genesis_hash: genesis,
        checkpoint_hash: checkpoint,
    };
    let mut out = Vec::new();
    additional.push_bytes(&standard_layout(), &mut out);
    assert_eq!(out, (9110u32, 8u32, genesis, checkpoint).encode());
    assert_eq!(out.len(), 4 + 4 + 32 + 32);
}

fn sample_parts() -> (UnsignedCall, ExtraData, AdditionalSigned) {
    (
        transfer_to_bob(),
        ExtraData { era: Era::Immortal, nonce: 0, tip: 500000000000000 },
        AdditionalSigned {
            spec_version: 9110,
            transaction_version: 8,
            genesis_hash: [0x33; 32],
            checkpoint_hash: [0x33; 32],
        },
    )
}

#[test]
fn signing_payload_is_call_extra_additional() {
    let (call, extra, additional) = sample_parts();
    let payload = build_signing_payload(&call, &extra, &additional, &standard_layout());
    let their_call = (
        5u8,
        0u8,
        MultiAddress::<AccountId32, u32>::Id(AccountId32::new(bob())),
        Compact(123456789012345u128),
    );
    let their_extra = (TheirEra::Immortal, Compact(0u32), Compact(500000000000000u128));
    let their_additional = (9110u32, 8u32, [0x33u8; 32], [0x33u8; 32]);
    assert_eq!(payload, (&their_call, &their_extra, &their_additional).encode());
    // short enough to be signed as it stands
    assert!(payload.len() <= 256);
    assert_eq!(signing_input(payload.clone()), payload);
}

#[test]
fn signing_input_switches_to_the_digest_above_256_bytes() {
    let at_limit = vec![0x5au8; 256];
    let beyond = vec![0x5au8; 257];
    assert_eq!(signing_input(at_limit.clone()), at_limit);
    let hashed = signing_input(beyond.clone());
    assert_eq!(hashed, crypto256(&beyond));
    assert_eq!(hashed, sp_crypto_hashing::blake2_256(&beyond).to_vec());
    assert_eq!(hashed.len(), 32);
    assert_ne!(hashed, beyond);
    assert_eq!(signing_input(vec![]), Vec::<u8>::new());
    assert_eq!(signing_input(vec![1u8; 255]), vec![1u8; 255]);
    assert_eq!(signing_input(vec![1u8; 1000]).len(), 32);
}

#[test]
fn a_long_call_is_signed_by_its_digest() {
    let call = UnsignedCall {
        pallet_index: 0,
        call_index: 1,
        args: vec![Value::Bytes(vec![0xabu8; 300])],
    };
    let (_, extra, additional) = sample_parts();
    let payload = build_signing_payload(&call, &extra, &additional, &standard_layout());
    assert!(payload.len() > 256);
    assert_eq!(signing_input(payload.clone()), sp_crypto_hashing::blake2_256(&payload).to_vec());
}

#[test]
fn unsigned_extrinsic_layout() {
    let call = transfer_to_bob();
    let bytes = unsigned_extrinsic(&call);
    let call_bytes = call.encode();
    let mut expected = encode_compact(1 + call_bytes.len() as u128);
    expected.push(0x04);
    expected.extend_from_slice(&call_bytes);
    assert_eq!(bytes, expected);
    assert_eq!(bytes, encode_extrinsic(None, &call_bytes));
}

#[test]
fn signed_extrinsic_layout() {
    let (call, extra, _) = sample_parts();
    let signature = SignaturePart { signer: alice(), signature: [0x77; 64], extra };
    let bytes = signed_extrinsic(&signature, &call, &standard_layout());

    let their_signature = (
        MultiAddress::<AccountId32, u32>::Id(AccountId32::new(alice())),
        MultiSignature::Sr25519(sp_core::sr25519::Signature::from_raw([0x77; 64])),
        (TheirEra::Immortal, Compact(0u32), Compact(500000000000000u128)),
    )
        .encode();
    assert_eq!(signature.encode(&standard_layout()), their_signature);

    let call_bytes = call.encode();
    let mut body = vec![0x84];
    body.extend_from_slice(&their_signature);
    body.extend_from_slice(&call_bytes);
    let mut expected = Compact(body.len() as u32).encode();
    expected.extend_from_slice(&body);
    assert_eq!(bytes, expected);
    assert_eq!(bytes, encode_extrinsic(Some(&their_signature), &call_bytes));
}

#[test]
fn envelope_of_empty_parts() {
    assert_eq!(encode_extrinsic(None, &[]), vec![0x04, 0x04]);
    assert_eq!(encode_extrinsic(Some(&[]), &[]), vec![0x04, 0x84]);
    assert_eq!(encode_extrinsic(Some(&[1, 2]), &[3]), vec![0x10, 0x84, 1, 2, 3]);
}

#[test]
fn envelope_length_prefix_grows_with_the_body() {
    let call = vec![0u8; 63];
    let bytes = encode_extrinsic(None, &call);
    // 64 bytes of body need the two-byte form
    assert_eq!(&bytes[..3], &[0x01, 0x01, 0x04]);
    assert_eq!(bytes.len(), 2 + 64);
    let call = vec![0u8; 62];
    let bytes = encode_extrinsic(None, &call);
    assert_eq!(&bytes[..2], &[0xfc, 0x04]);
    assert_eq!(bytes.len(), 1 + 63);
}

#[test]
fn extensions_contribute_in_declared_order() {
    let extra = ExtraData { era: Era::Mortal { period: 64, phase: 42 }, nonce: 7, tip: 9 };
    let additional = AdditionalSigned {
        spec_version: 1,
        transaction_version: 2,
        genesis_hash: [3; 32],
        checkpoint_hash: [4; 32],
    };
    // tip before nonce, no era at all
    let layout = vec![ExtensionKind::Payment, ExtensionKind::Check, ExtensionKind::Nonce];
    let mut sent = Vec::new();
    extra.push_bytes(&layout, &mut sent);
    assert_eq!(sent, (Compact(9u128), Compact(7u32)).encode());
    let mut signed = Vec::new();
    additional.push_bytes(&layout, &mut signed);
    assert!(signed.is_empty());

    // genesis before the versions, and the checkpoint of the era
    let layout = vec![
        ExtensionKind::Genesis,
        ExtensionKind::Mortality,
        ExtensionKind::TransactionVersion,
        ExtensionKind::SpecVersion,
    ];
    let mut sent = Vec::new();
    extra.push_bytes(&layout, &mut sent);
    assert_eq!(sent, TheirEra::Mortal(64, 42).encode());
    let mut signed = Vec::new();
    additional.push_bytes(&layout, &mut signed);
    assert_eq!(signed, ([3u8; 32], [4u8; 32], 2u32, 1u32).encode());

    // the metadata check sends its mode and signs the absence of a hash
    let layout = vec![ExtensionKind::Nonce, ExtensionKind::MetadataHash];
    let mut sent = Vec::new();
    extra.push_bytes(&layout, &mut sent);
    assert_eq!(sent, (Compact(7u32), 0u8).encode());
    let mut signed = Vec::new();
    additional.push_bytes(&layout, &mut signed);
    assert_eq!(signed, None::<[u8; 32]>.encode());

    // no extensions, no bytes
    let mut sent = Vec::new();
    extra.push_bytes(&vec![], &mut sent);
    assert!(sent.is_empty());
}
