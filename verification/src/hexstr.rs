//! Hexadecimal text, the form in which bytes cross the RPC boundary.

use crate::bytes::copy_range;
use vstd::prelude::*;
use vstd::string::StringExecFns;
use vstd::string::StringSliceAdditionalSpecFns;

verus! {

/// Why a text could not be read as hexadecimal.
#[derive(Clone, Copy, Debug, PartialEq, Eq, Structural)]
pub enum HexError {
    /// The text has an odd number of digits.
    OddLength,
    /// The byte at `index`, counted after the prefix, is no hexadecimal
    /// digit, and every byte before it is one.
    InvalidCharacter { index: usize },
    /// The text does not have the length of its container.
    InvalidLength,
}

/// The lower-case digit for `n`, which is below 16.
pub open spec fn hex_digit(n: nat) -> char {
    if n < 10 {
        (0x30 + n) as char
    } else {
        (0x57 + n) as char
    }
}

/// The lower-case hexadecimal text of `data`: two digits per byte, the high
/// one first.
pub open spec fn hex_text(data: Seq<u8>) -> Seq<char> {
    Seq::new(
        2 * data.len(),
        |i: int|
            if i % 2 == 0 {
                hex_digit((data[i / 2] / 16) as nat)
            } else {
                hex_digit((data[i / 2] % 16) as nat)
            },
    )
}

/// The value of the ASCII digit `c`, in either case, or `None`.
pub open spec fn digit_value(c: u8) -> Option<nat> {
    if 0x30 <= c <= 0x39 {
        Some((c - 0x30) as nat)
    } else if 0x41 <= c <= 0x46 {
        Some((c - 0x41 + 10) as nat)
    } else if 0x61 <= c <= 0x66 {
        Some((c - 0x61 + 10) as nat)
    } else {
        None
    }
}

/// Whether every byte of `text` is a hexadecimal digit.
pub open spec fn all_digits(text: Seq<u8>) -> bool {
    forall|i: int| 0 <= i < text.len() ==> digit_value(#[trigger] text[i]) is Some
}

/// The bytes that a text of hexadecimal digits spells, two digits per byte.
pub open spec fn hex_bytes(text: Seq<u8>) -> Seq<u8> {
    Seq::new(
        text.len() / 2,
        |i: int|
            (16 * digit_value(text[2 * i])->Some_0 + digit_value(text[2 * i + 1])->Some_0) as u8,
    )
}

/// What reading `text` as hexadecimal gives.
pub open spec fn hex_parse(text: Seq<u8>, r: Result<Seq<u8>, HexError>) -> bool {
    if text.len() % 2 == 1 {
        r == Err::<Seq<u8>, HexError>(HexError::OddLength)
    } else if all_digits(text) {
        r == Ok::<Seq<u8>, HexError>(hex_bytes(text))
    } else {
        &&& r matches Err(HexError::InvalidCharacter { index })
        &&& index < text.len()
        &&& digit_value(text[index as int]) is None
        &&& all_digits(text.take(index as int))
    }
}

/// `text` without any `0x` at its front, however often repeated.
pub open spec fn without_prefix(text: Seq<u8>) -> Seq<u8>
    decreases text.len(),
{
    if text.len() >= 2 && text[0] == 0x30 && text[1] == 0x78 {
        without_prefix(text.skip(2))
    } else {
        text
    }
}

/// Calls `hex::encode`, which writes each byte as two lower-case digits,
/// the high one first. Trusted: the result is `hex_text` of the argument.
#[verifier::external_body]
fn call_hex_encode(data: &[u8]) -> (s: String)
    ensures
        s@ == hex_text(data@),
{
    hex::encode(data)
}

/// Calls `hex::decode`, which refuses a text of odd length first, then
/// reads the digits pair by pair and stops at the first byte that is no
/// digit. Trusted: the result is as `hex_parse` says.
#[verifier::external_body]
fn call_hex_decode(text: &[u8]) -> (r: Result<Vec<u8>, HexError>)
    ensures
        hex_parse(
            text@,
            match r {
                Ok(bytes) => Ok(bytes@),
                Err(e) => Err(e),
            },
        ),
{
    match hex::decode(text) {
        Ok(bytes) => Ok(bytes),
        Err(hex::FromHexError::OddLength) => Err(HexError::OddLength),
        Err(hex::FromHexError::InvalidHexCharacter { index, .. }) => Err(
            HexError::InvalidCharacter { index },
        ),
        Err(hex::FromHexError::InvalidStringLength) => Err(HexError::InvalidLength),
    }
}

/// The text that stands for `data` on the wire: `0x`, then two lower-case
/// digits per byte.
pub fn to_hex(data: &[u8]) -> (s: String)
    ensures
        s@ == seq!['0', 'x'] + hex_text(data@),
{
    let digits: String = call_hex_encode(data);
    let mut s: String = String::from_str("0x");
    proof {
        reveal_strlit("0x");
        assert("0x"@ =~= seq!['0', 'x']);
    }
    s.append(digits.as_str());
    s
}

/// How many bytes at the front of `text` are `0x` prefixes.
fn prefix_len(text: &[u8]) -> (n: usize)
    ensures
        n <= text@.len(),
        text@.skip(n as int) == without_prefix(text@),
{
    let len: usize = text.len();
    let mut n: usize = 0;
    assert(text@.skip(0) =~= text@);
    while len - n >= 2 && text[n] == 0x30 && text[n + 1] == 0x78
        invariant
            n <= len,
            len == text@.len(),
            without_prefix(text@.skip(n as int)) == without_prefix(text@),
        decreases len - n,
    {
        assert(text@.skip(n as int).skip(2) =~= text@.skip(n + 2));
        n = n + 2;
    }
    n
}

/// The bytes that `text` stands for: any `0x` at its front is dropped, and
/// the rest is read as hexadecimal digits in either case.
pub fn from_hex(text: &[u8]) -> (r: Result<Vec<u8>, HexError>)
    ensures
        hex_parse(
            without_prefix(text@),
            match r {
                Ok(bytes) => Ok(bytes@),
                Err(e) => Err(e),
            },
        ),
{
    let n: usize = prefix_len(text);
    let digits: Vec<u8> = copy_range(text, n, text.len());
    assert(digits@ =~= text@.skip(n as int));
    call_hex_decode(digits.as_slice())
}

/// The 32-byte hash that `text` stands for: any `0x` at its front is
/// dropped, and the rest is exactly 64 hexadecimal digits.
pub fn hash_from_hex(text: &[u8]) -> (r: Option<[u8; 32]>)
    ensures
        r is Some <==> without_prefix(text@).len() == 64 && all_digits(without_prefix(text@)),
        r matches Some(h) ==> h@ == hex_bytes(without_prefix(text@)),
{
    let bytes: Vec<u8> = match from_hex(text) {
        Ok(bytes) => bytes,
        Err(_) => {
            return None;
        },
    };
    if bytes.len() != 32 {
        return None;
    }
    let mut hash: [u8; 32] = [0u8; 32];
    let mut i: usize = 0;
    while i < 32
        invariant
            i <= 32,
            bytes@.len() == 32,
            forall|j: int| 0 <= j < i ==> hash@[j] == bytes@[j],
        decreases 32 - i,
    {
        hash[i] = bytes[i];
        i = i + 1;
    }
    assert(hash@ =~= bytes@);
    Some(hash)
}

/// The bytes that the string `text` stands for.
pub fn str_from_hex(text: &str) -> (r: Result<Vec<u8>, HexError>)
    ensures
        hex_parse(
            without_prefix(text.spec_bytes()),
            match r {
                Ok(bytes) => Ok(bytes@),
                Err(e) => Err(e),
            },
        ),
{
    from_hex(text.as_bytes())
}

/// The bytes of a text whose characters are all ASCII.
pub open spec fn ascii(text: Seq<char>) -> Seq<u8> {
    Seq::new(text.len(), |i: int| text[i] as u8)
}

/// Round trip: the text that stands for some bytes, read back, gives those
/// bytes.
pub proof fn lemma_hex_round_trip(data: Seq<u8>)
    ensures
        hex_parse(
            without_prefix(ascii(seq!['0', 'x'] + hex_text(data))),
            Ok::<Seq<u8>, HexError>(data),
        ),
{
    let digits = ascii(hex_text(data));
    let whole = ascii(seq!['0', 'x'] + hex_text(data));
    assert forall|i: int| 0 <= i < digits.len() implies digit_value(#[trigger] digits[i]) == Some(
        if i % 2 == 0 {
            (data[i / 2] / 16) as nat
        } else {
            (data[i / 2] % 16) as nat
        },
    ) by {
        let n: nat = if i % 2 == 0 {
            (data[i / 2] / 16) as nat
        } else {
            (data[i / 2] % 16) as nat
        };
        assert(hex_text(data)[i] == hex_digit(n));
        assert(digits[i] == hex_digit(n) as u8);
        lemma_hex_digit(n);
    }
    assert(whole[0] == 0x30 && whole[1] == 0x78);
    assert(whole.skip(2) =~= digits);
    if digits.len() >= 2 {
        assert(digit_value(digits[1]) is Some);
    }
    assert(without_prefix(digits) == digits);
    assert(without_prefix(whole) == without_prefix(whole.skip(2)));
    assert(all_digits(digits));
    assert(hex_bytes(digits) =~= data) by {
        assert forall|k: int| 0 <= k < data.len() implies hex_bytes(digits)[k] == data[k] by {
            assert(digit_value(digits[2 * k]) == Some((data[k] / 16) as nat));
            assert(digit_value(digits[2 * k + 1]) == Some((data[k] % 16) as nat));
        }
    }
}

/// The digit for a number below 16 is an ASCII digit of that value.
pub proof fn lemma_hex_digit(n: nat)
    requires
        n < 16,
    ensures
        digit_value(hex_digit(n) as u8) == Some(n),
        hex_digit(n) as u8 != 0x78,
{
    if n < 10 {
        assert(((0x30 + n) as char) as u8 == 0x30 + n);
    } else {
        assert(((0x57 + n) as char) as u8 == 0x57 + n);
    }
}

} // verus!
