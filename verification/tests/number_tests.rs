use substrate_wire::fees::{check_partial_fee, read_details, FeeDetails};
use substrate_wire::number::{decimal_number, digit, read_number, to_number, NumberError};

#[test]
fn to_number_reads_prefixed_hex() {
    assert_eq!(to_number(b"0x0"), Ok(0));
    assert_eq!(to_number(b"0xff"), Ok(255));
    assert_eq!(to_number(b"0xFF"), Ok(255));
    assert_eq!(to_number(b"0x00000000000000000000000000000001"), Ok(1));
    assert_eq!(to_number(b"0x000000000000000000038d7ea4c68000"), Ok(1_000_000_000_000_000));
    assert_eq!(to_number(b"0xffffffffffffffffffffffffffffffff"), Ok(u128::MAX));
    assert_eq!(to_number(b"0xffffffffffffffffffffffffffffffff"), u128::from_str_radix("ffffffffffffffffffffffffffffffff", 16).map_err(|_| NumberError::Overflow));
}

#[test]
fn to_number_drops_two_bytes_whatever_they_are() {
    assert_eq!(to_number(b"zz10"), Ok(16));
    assert_eq!(to_number(b"0x+10"), Ok(16));
}

#[test]
fn to_number_errors() {
    assert_eq!(to_number(b""), Err(NumberError::TooShort));
    assert_eq!(to_number(b"0"), Err(NumberError::TooShort));
    assert_eq!(to_number(b"0x"), Err(NumberError::Empty));
    assert_eq!(to_number(b"0x+"), Err(NumberError::InvalidDigit));
    assert_eq!(to_number(b"0x12g4"), Err(NumberError::InvalidDigit));
    assert_eq!(to_number(b"0x-1"), Err(NumberError::InvalidDigit));
    assert_eq!(to_number(b"0x 1"), Err(NumberError::InvalidDigit));
    assert_eq!(
        to_number(b"0x100000000000000000000000000000000"),
        Err(NumberError::Overflow)
    );
    // a bad digit is reported even behind an overflow
    assert_eq!(
        to_number(b"0x100000000000000000000000000000000z"),
        Err(NumberError::InvalidDigit)
    );
}

#[test]
fn decimal_numbers() {
    assert_eq!(decimal_number(b"0"), Ok(0));
    assert_eq!(decimal_number(b"007"), Ok(7));
    assert_eq!(decimal_number(b"+42"), Ok(42));
    assert_eq!(decimal_number(b"340282366920938463463374607431768211455"), Ok(u128::MAX));
    assert_eq!(
        decimal_number(b"340282366920938463463374607431768211456"),
        Err(NumberError::Overflow)
    );
    assert_eq!(decimal_number(b""), Err(NumberError::Empty));
    assert_eq!(decimal_number(b"12a"), Err(NumberError::InvalidDigit));
    assert_eq!(decimal_number(b"1.5"), Err(NumberError::InvalidDigit));
    for n in [0u128, 9, 10, 99, 12345678901234567890, u128::MAX] {
        assert_eq!(decimal_number(n.to_string().as_bytes()), Ok(n));
        assert_eq!(to_number(format!("0x{:x}", n).as_bytes()), Ok(n));
    }
}

#[test]
fn read_number_starts_where_it_is_told() {
    assert_eq!(read_number(b"abc123", 3, 10), Ok(123));
    assert_eq!(read_number(b"abc", 3, 10), Err(NumberError::Empty));
    assert_eq!(read_number(b"101", 0, 2), Ok(5));
    assert_eq!(read_number(b"102", 0, 2), Err(NumberError::InvalidDigit));
    assert_eq!(read_number(b"zz", 0, 36), Ok(35 * 36 + 35));
}

#[test]
fn digits_by_radix() {
    assert_eq!(digit(b'0', 10), Some(0));
    assert_eq!(digit(b'9', 10), Some(9));
    assert_eq!(digit(b'a', 10), None);
    assert_eq!(digit(b'a', 16), Some(10));
    assert_eq!(digit(b'F', 16), Some(15));
    assert_eq!(digit(b'g', 16), None);
    assert_eq!(digit(b'/', 16), None);
    assert_eq!(digit(b':', 16), None);
    assert_eq!(digit(b'@', 16), None);
    assert_eq!(digit(b'`', 16), None);
    assert_eq!(digit(b'8', 8), None);
}

#[test]
fn partial_fee_is_the_sum_of_the_parts() {
    let details = FeeDetails { base_fee: 1000, len_fee: 140, adjusted_weight_fee: 23 };
    assert_eq!(details.partial_fee(), Some(1163));
    assert!(details.adds_up_to(1163));
    assert!(!details.adds_up_to(1164));
    assert_eq!(check_partial_fee(&details, b"1163"), Ok(true));
    assert_eq!(check_partial_fee(&details, b"1162"), Ok(false));
    assert_eq!(check_partial_fee(&details, b"11x3"), Err(NumberError::InvalidDigit));
}

#[test]
fn partial_fee_that_does_not_fit() {
    let details = FeeDetails { base_fee: u128::MAX, len_fee: 1, adjusted_weight_fee: 0 };
    assert_eq!(details.partial_fee(), None);
    assert!(!details.adds_up_to(0));
    assert!(!details.adds_up_to(u128::MAX));
    let edge = FeeDetails { base_fee: u128::MAX - 2, len_fee: 1, adjusted_weight_fee: 1 };
    assert_eq!(edge.partial_fee(), Some(u128::MAX));
    let over = FeeDetails { base_fee: u128::MAX - 2, len_fee: 1, adjusted_weight_fee: 2 };
    assert_eq!(over.partial_fee(), None);
}

#[test]
fn fee_details_from_a_report() {
    let details = read_details(
        b"0x00000000000000000000000005f5e100",
        b"0x0000000000000000000000000090f560",
        b"0x00000000000000000000000000000000",
    )
    .unwrap();
    assert_eq!(
        details,
        FeeDetails { base_fee: 100_000_000, len_fee: 9_500_000, adjusted_weight_fee: 0 }
    );
    assert_eq!(details.partial_fee(), Some(109_500_000));
    assert_eq!(check_partial_fee(&details, b"109500000"), Ok(true));
    assert_eq!(read_details(b"0x1", b"0x2", b"0xzz"), Err(NumberError::InvalidDigit));
    // the first two bytes are dropped unread, so this is the digit `d`
    assert_eq!(
        read_details(b"0x1", b"0x2", b"bad"),
        Ok(FeeDetails { base_fee: 1, len_fee: 2, adjusted_weight_fee: 13 })
    );
    assert_eq!(read_details(b"0x1", b"", b"0x3"), Err(NumberError::TooShort));
    assert_eq!(read_details(b"0x", b"0x2", b"0x3"), Err(NumberError::Empty));
}
