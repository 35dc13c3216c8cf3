use substrate_wire::bytes::{copy_range, push_bytes, same_bytes};
use substrate_wire::fixed::{push_le, read_le};

#[test]
fn push_bytes_appends() {
    let mut out = vec![1u8, 2];
    push_bytes(&mut out, &[3, 4, 5]);
    assert_eq!(out, vec![1, 2, 3, 4, 5]);
    push_bytes(&mut out, &[]);
    assert_eq!(out, vec![1, 2, 3, 4, 5]);
}

#[test]
fn copy_range_copies_a_part() {
    let input = [10u8, 11, 12, 13, 14];
    assert_eq!(copy_range(&input, 1, 4), vec![11, 12, 13]);
    assert_eq!(copy_range(&input, 0, 5), input.to_vec());
    assert_eq!(copy_range(&input, 2, 2), Vec::<u8>::new());
    assert_eq!(copy_range(&input, 5, 5), Vec::<u8>::new());
}

#[test]
fn same_bytes_compares_length_and_content() {
    assert!(same_bytes(b"", b""));
    assert!(same_bytes(b"abc", b"abc"));
    assert!(!same_bytes(b"abc", b"abd"));
    assert!(!same_bytes(b"abc", b"ab"));
    assert!(!same_bytes(b"ab", b"abc"));
    assert!(!same_bytes(b"", b"a"));
}

#[test]
fn little_endian_integers() {
    let mut out = Vec::new();
    push_le(&mut out, 0x0102_0304, 4);
    assert_eq!(out, vec![4, 3, 2, 1]);
    assert_eq!(out, 0x0102_0304u32.to_le_bytes().to_vec());
    push_le(&mut out, 0xabcd, 2);
    assert_eq!(out, vec![4, 3, 2, 1, 0xcd, 0xab]);
    assert_eq!(read_le(&out, 0, 4), 0x0102_0304);
    assert_eq!(read_le(&out, 4, 2), 0xabcd);
    assert_eq!(read_le(&out, 1, 3), 0x01_0203);
    assert_eq!(read_le(&out, 6, 0), 0);
    // a number that is narrower than its width is filled with zeros
    let mut wide = Vec::new();
    push_le(&mut wide, 1, 17);
    assert_eq!(wide.len(), 17);
    assert_eq!(wide[0], 1);
    assert!(wide[1..].iter().all(|b| *b == 0));
    let mut all = Vec::new();
    push_le(&mut all, u128::MAX, 16);
    assert_eq!(all, vec![0xff; 16]);
    assert_eq!(read_le(&all, 0, 16), u128::MAX);
}
