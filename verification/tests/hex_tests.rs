use substrate_wire::hexstr::{from_hex, hash_from_hex, str_from_hex, to_hex, HexError};

#[test]
fn to_hex_writes_prefix_and_lower_case_digits() {
    assert_eq!(to_hex(&[]), "0x");
    assert_eq!(to_hex(&[0x00, 0x0f, 0xa0, 0xff]), "0x000fa0ff");
    assert_eq!(to_hex(b"Hello world!"), "0x48656c6c6f20776f726c6421");
}

#[test]
fn from_hex_reads_both_cases_with_or_without_prefix() {
    assert_eq!(str_from_hex("0x000fa0ff"), Ok(vec![0x00, 0x0f, 0xa0, 0xff]));
    assert_eq!(str_from_hex("000FA0Ff"), Ok(vec![0x00, 0x0f, 0xa0, 0xff]));
    assert_eq!(str_from_hex("0x"), Ok(vec![]));
    assert_eq!(str_from_hex(""), Ok(vec![]));
    assert_eq!(from_hex(b"0xdeadBEEF"), Ok(vec![0xde, 0xad, 0xbe, 0xef]));
}

#[test]
fn from_hex_drops_a_repeated_prefix() {
    assert_eq!(str_from_hex("0x0x12"), Ok(vec![0x12]));
    // a lone zero in front of an `x` is part of a prefix, one in front of a digit is not
    assert_eq!(str_from_hex("0x00"), Ok(vec![0x00]));
}

#[test]
fn from_hex_reports_odd_length_first() {
    assert_eq!(str_from_hex("0x123"), Err(HexError::OddLength));
    assert_eq!(str_from_hex("zzz"), Err(HexError::OddLength));
}

#[test]
fn from_hex_reports_the_first_bad_digit() {
    assert_eq!(str_from_hex("0x12g4"), Err(HexError::InvalidCharacter { index: 2 }));
    assert_eq!(str_from_hex("0xzz"), Err(HexError::InvalidCharacter { index: 0 }));
    assert_eq!(str_from_hex("12 4"), Err(HexError::InvalidCharacter { index: 2 }));
    assert_eq!(str_from_hex("0X12"), Err(HexError::InvalidCharacter { index: 1 }));
}

#[test]
fn hex_round_trip() {
    let data: Vec<u8> = (0..=255u8).collect();
    let text = to_hex(&data);
    assert_eq!(text.len(), 2 + 512);
    assert_eq!(str_from_hex(&text), Ok(data));
}

#[test]
fn a_hash_is_exactly_64_digits() {
    let text = "0x91b171bb158e2d3848fa23a9f1c25182fb8e20313b2c1eb49219da7a70ce90c3";
    let hash = hash_from_hex(text.as_bytes()).unwrap();
    assert_eq!(to_hex(&hash), text);
    assert_eq!(hash[0], 0x91);
    assert_eq!(hash[31], 0xc3);
    // with or without the prefix, in either case
    assert_eq!(hash_from_hex(text[2..].as_bytes()), Some(hash));
    assert_eq!(hash_from_hex(text.to_uppercase().replace("0X", "0x").as_bytes()), Some(hash));
    // no digit fewer, no digit more, and digits only
    assert_eq!(hash_from_hex(text[..text.len() - 2].as_bytes()), None);
    assert_eq!(hash_from_hex(text[..text.len() - 1].as_bytes()), None);
    assert_eq!(hash_from_hex(format!("{text}00").as_bytes()), None);
    assert_eq!(hash_from_hex(text.replace('9', "g").as_bytes()), None);
    assert_eq!(hash_from_hex(b""), None);
    assert_eq!(hash_from_hex(b"0x"), None);
    assert_eq!(hash_from_hex(&[b'0'; 64]), Some([0u8; 32]));
}
