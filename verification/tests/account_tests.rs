use parity_scale_codec::Encode;
use sp_runtime::generic::DigestItem as TheirItem;
use substrate_wire::account::{decode_account_info, AccountData, AccountInfo};
use substrate_wire::codec::decode;
use substrate_wire::digest::{decode_digest_item, DigestItem};
use substrate_wire::error::DecodeError;
use substrate_wire::value::{TypeDescriptor, Value};

#[test]
fn account_info_fields_in_order() {
    let bytes = (7u32, 1u32, 2u32, 3u32, (1000u128, 200u128, 30u128, 1u128 << 127)).encode();
    assert_eq!(bytes.len(), 80);
    assert_eq!(
        decode_account_info(&bytes),
        Ok(AccountInfo {
            nonce: 7,
            consumers: 1,
            providers: 2,
            sufficients: 3,
            data: AccountData { free: 1000, reserved: 200, frozen: 30, flags: 1 << 127 },
        })
    );
}

#[test]
fn account_info_extremes() {
    let bytes = (u32::MAX, 0u32, u32::MAX, 0u32, (u128::MAX, 0u128, u128::MAX, 0u128)).encode();
    let info = decode_account_info(&bytes).unwrap();
    assert_eq!(info.nonce, u32::MAX);
    assert_eq!(info.consumers, 0);
    assert_eq!(info.providers, u32::MAX);
    assert_eq!(info.data.free, u128::MAX);
    assert_eq!(info.data.reserved, 0);
    assert_eq!(info.data.frozen, u128::MAX);
}

#[test]
fn account_info_needs_eighty_bytes() {
    assert_eq!(decode_account_info(&[0u8; 79]), Err(DecodeError::UnexpectedEnd));
    assert_eq!(decode_account_info(&[]), Err(DecodeError::UnexpectedEnd));
    assert!(decode_account_info(&[0u8; 80]).is_ok());
    assert!(decode_account_info(&[0u8; 81]).is_ok());
}

#[test]
fn total_issuance_is_a_128_bit_integer() {
    let bytes = 12345678901234567890123u128.encode();
    match decode(&TypeDescriptor::U128, &bytes) {
        Ok((Value::U128(n), 16)) => assert_eq!(n, 12345678901234567890123),
        other => panic!("a 128-bit integer, not {:?}", other),
    }
}

fn same(ours: &DigestItem, theirs: &TheirItem) -> bool {
    match (ours, theirs) {
        (DigestItem::Other(a), TheirItem::Other(b)) => a == b,
        (DigestItem::Consensus(e, a), TheirItem::Consensus(f, b)) => e[..] == f[..] && a == b,
        (DigestItem::Seal(e, a), TheirItem::Seal(f, b)) => e[..] == f[..] && a == b,
        (DigestItem::PreRuntime(e, a), TheirItem::PreRuntime(f, b)) => e[..] == f[..] && a == b,
        (DigestItem::RuntimeEnvironmentUpdated, TheirItem::RuntimeEnvironmentUpdated) => true,
        _ => false,
    }
}

#[test]
fn digest_items_agree_with_the_runtime_crate() {
    let items = vec![
        TheirItem::Other(vec![1, 2, 3]),
        TheirItem::Other(vec![]),
        TheirItem::Consensus(*b"BABE", vec![9; 70]),
        TheirItem::Seal(*b"aura", vec![5; 64]),
        TheirItem::PreRuntime(*b"BABE", vec![1, 0, 2]),
        TheirItem::RuntimeEnvironmentUpdated,
    ];
    for theirs in items {
        let bytes = theirs.encode();
        let ours = decode_digest_item(&bytes).unwrap();
        assert!(same(&ours, &theirs), "{:?} is not {:?}", ours, theirs);
    }
}

#[test]
fn digest_item_bytes() {
    match decode_digest_item(&[6, b'B', b'A', b'B', b'E', 0x08, 0xaa, 0xbb]).unwrap() {
        DigestItem::PreRuntime(engine, data) => {
            assert_eq!(engine, b"BABE");
            assert_eq!(data, vec![0xaa, 0xbb]);
        }
        other => panic!("a pre-runtime item, not {:?}", other),
    }
    assert!(matches!(decode_digest_item(&[8]), Ok(DigestItem::RuntimeEnvironmentUpdated)));
}

#[test]
fn digest_item_errors() {
    assert!(matches!(decode_digest_item(&[]), Err(DecodeError::UnexpectedEnd)));
    for kind in [1u8, 2, 3, 7, 9, 255] {
        assert!(matches!(
            decode_digest_item(&[kind, 0, 0, 0, 0, 0]),
            Err(DecodeError::InvalidVariantTag)
        ));
    }
    assert!(matches!(decode_digest_item(&[4, 1, 2, 3]), Err(DecodeError::UnexpectedEnd)));
    assert!(matches!(decode_digest_item(&[4, 1, 2, 3, 4]), Err(DecodeError::UnexpectedEnd)));
    assert!(matches!(decode_digest_item(&[0, 0x08, 1]), Err(DecodeError::UnexpectedEnd)));
    assert!(matches!(
        decode_digest_item(&[0, 0x05, 0x00]),
        Err(DecodeError::NonCanonicalCompact)
    ));
}
