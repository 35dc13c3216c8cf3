use parity_scale_codec::{Compact, Decode, Encode};
use substrate_wire::compact::{byte_length, decode_compact, encode_compact};
use substrate_wire::error::DecodeError;

#[test]
fn compact_single_byte_values() {
    assert_eq!(encode_compact(0), vec![0x00]);
    assert_eq!(encode_compact(1), vec![0x04]);
    assert_eq!(encode_compact(42), vec![0xa8]);
    assert_eq!(encode_compact(63), vec![0xfc]);
}

#[test]
fn compact_two_byte_values() {
    assert_eq!(encode_compact(64), vec![0x01, 0x01]);
    assert_eq!(encode_compact(69), vec![0x15, 0x01]);
    assert_eq!(encode_compact(16383), vec![0xfd, 0xff]);
}

#[test]
fn compact_four_byte_values() {
    assert_eq!(encode_compact(16384), vec![0x02, 0x00, 0x01, 0x00]);
    assert_eq!(encode_compact(1073741823), vec![0xfe, 0xff, 0xff, 0xff]);
}

#[test]
fn compact_big_values() {
    assert_eq!(encode_compact(1073741824), vec![0x03, 0x00, 0x00, 0x00, 0x40]);
    assert_eq!(
        encode_compact(123456789012345),
        vec![0x0b, 0x79, 0xdf, 0x0d, 0x86, 0x48, 0x70]
    );
    let mut all = vec![0x33];
    all.extend_from_slice(&[0xff; 16]);
    assert_eq!(encode_compact(u128::MAX), all);
}

#[test]
fn compact_agrees_with_the_reference_codec() {
    let samples: [u128; 14] = [
        0,
        1,
        63,
        64,
        16383,
        16384,
        (1 << 30) - 1,
        1 << 30,
        u32::MAX as u128,
        1 << 32,
        u64::MAX as u128,
        1 << 64,
        123456789012345,
        u128::MAX,
    ];
    for n in samples {
        let ours = encode_compact(n);
        assert_eq!(ours, Compact(n).encode());
        assert_eq!(decode_compact(&ours), Ok((n, ours.len())));
        let theirs = Compact::<u128>::decode(&mut &ours[..]).unwrap();
        assert_eq!(theirs.0, n);
    }
}

#[test]
fn compact_round_trip_ignores_what_follows() {
    let mut bytes = encode_compact(500000000000000);
    let used = bytes.len();
    bytes.extend_from_slice(&[1, 2, 3]);
    assert_eq!(decode_compact(&bytes), Ok((500000000000000, used)));
}

#[test]
fn compact_rejects_padded_forms() {
    // 1 written in two bytes, in four bytes and in the long form
    assert_eq!(decode_compact(&[0x05, 0x00]), Err(DecodeError::NonCanonicalCompact));
    assert_eq!(
        decode_compact(&[0x06, 0x00, 0x00, 0x00]),
        Err(DecodeError::NonCanonicalCompact)
    );
    assert_eq!(
        decode_compact(&[0x03, 0x01, 0x00, 0x00, 0x00]),
        Err(DecodeError::NonCanonicalCompact)
    );
    // 2^30 with a zero byte on top
    assert_eq!(
        decode_compact(&[0x07, 0x00, 0x00, 0x00, 0x40, 0x00]),
        Err(DecodeError::NonCanonicalCompact)
    );
    // the reference codec refuses them too
    assert!(Compact::<u128>::decode(&mut &[0x05u8, 0x00][..]).is_err());
    assert!(Compact::<u128>::decode(&mut &[0x07u8, 0x00, 0x00, 0x00, 0x40, 0x00][..]).is_err());
}

#[test]
fn compact_rejects_short_input() {
    assert_eq!(decode_compact(&[]), Err(DecodeError::UnexpectedEnd));
    assert_eq!(decode_compact(&[0x01]), Err(DecodeError::UnexpectedEnd));
    assert_eq!(decode_compact(&[0x02, 0x00, 0x01]), Err(DecodeError::UnexpectedEnd));
    assert_eq!(decode_compact(&[0x03, 0x00, 0x00, 0x00]), Err(DecodeError::UnexpectedEnd));
}

#[test]
fn compact_rejects_more_than_sixteen_bytes() {
    let mut bytes = vec![0x37];
    bytes.extend_from_slice(&[0xff; 17]);
    assert_eq!(decode_compact(&bytes), Err(DecodeError::OutOfRange));
}

#[test]
fn byte_length_counts_significant_bytes() {
    assert_eq!(byte_length(0), 1);
    assert_eq!(byte_length(255), 1);
    assert_eq!(byte_length(256), 2);
    assert_eq!(byte_length(1 << 30), 4);
    assert_eq!(byte_length(u128::MAX), 16);
}
