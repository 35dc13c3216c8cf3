//! Numbers written as text: hexadecimal quantities with their two-byte
//! prefix, and decimal amounts.

use vstd::prelude::*;

verus! {

/// Why a text could not be read as a number.
#[derive(Clone, Copy, Debug, PartialEq, Eq, Structural)]
pub enum NumberError {
    /// The text is shorter than its prefix.
    TooShort,
    /// There is nothing after the prefix.
    Empty,
    /// A byte is no digit of the radix, or a sign stands alone.
    InvalidDigit,
    /// Every byte is a digit, but the number does not fit 128 bits.
    Overflow,
}

/// The value of the ASCII digit `c` in the given radix, or `None`.
pub open spec fn digit_in(c: u8, radix: nat) -> Option<nat> {
    let value: int = if 0x30 <= c <= 0x39 {
        c - 0x30
    } else if 0x41 <= c <= 0x5a {
        c - 0x41 + 10
    } else if 0x61 <= c <= 0x7a {
        c - 0x61 + 10
    } else {
        36
    };
    if value < radix {
        Some(value as nat)
    } else {
        None
    }
}

/// Whether every byte of `digits` is a digit of the radix.
pub open spec fn digits_only(digits: Seq<u8>, radix: nat) -> bool {
    forall|i: int| 0 <= i < digits.len() ==> digit_in(#[trigger] digits[i], radix) is Some
}

/// The number that `digits` spell, most significant digit first.
pub open spec fn digits_value(digits: Seq<u8>, radix: nat) -> nat
    decreases digits.len(),
{
    if digits.len() == 0 {
        0
    } else {
        radix * digits_value(digits.drop_last(), radix) + match digit_in(digits.last(), radix) {
            Some(d) => d,
            None => 0,
        }
    }
}

/// `text` without a plus sign at its front.
pub open spec fn unsigned_part(text: Seq<u8>) -> Seq<u8> {
    if text.len() > 0 && text[0] == 0x2b {
        text.skip(1)
    } else {
        text
    }
}

/// What reading `text` as a number gives: an optional plus sign, then at
/// least one digit, and nothing else; the number fits 128 bits.
pub open spec fn number_of(text: Seq<u8>, radix: nat) -> Result<u128, NumberError> {
    let digits = unsigned_part(text);
    if text.len() == 0 {
        Err(NumberError::Empty)
    } else if digits.len() == 0 || !digits_only(digits, radix) {
        Err(NumberError::InvalidDigit)
    } else if digits_value(digits, radix) > u128::MAX {
        Err(NumberError::Overflow)
    } else {
        Ok(digits_value(digits, radix) as u128)
    }
}

/// What reading `text` as a prefixed hexadecimal quantity gives: the first
/// two bytes are dropped unread, the rest is a number in radix 16.
pub open spec fn quantity_of(text: Seq<u8>) -> Result<u128, NumberError> {
    if text.len() < 2 {
        Err(NumberError::TooShort)
    } else {
        number_of(text.skip(2), 16)
    }
}

/// More digits never spell a smaller number.
pub proof fn lemma_digits_value_grows(digits: Seq<u8>, radix: nat, k: int)
    requires
        radix >= 1,
        0 <= k <= digits.len(),
    ensures
        digits_value(digits.take(k), radix) <= digits_value(digits, radix),
    decreases digits.len(),
{
    if k == digits.len() {
        assert(digits.take(k) =~= digits);
    } else {
        let front = digits.drop_last();
        assert(front.take(k) =~= digits.take(k));
        lemma_digits_value_grows(front, radix, k);
        let v = digits_value(front, radix);
        assert(radix * v >= v) by (nonlinear_arith)
            requires
                radix >= 1,
        ;
    }
}

/// The value of the ASCII digit `c` in the given radix.
pub fn digit(c: u8, radix: u8) -> (r: Option<u8>)
    requires
        radix <= 36,
    ensures
        match digit_in(c, radix as nat) {
            Some(d) => r == Some(d as u8) && d < radix,
            None => r is None,
        },
{
    let value: u8 = if 0x30 <= c && c <= 0x39 {
        c - 0x30
    } else if 0x41 <= c && c <= 0x5a {
        c - 0x41 + 10
    } else if 0x61 <= c && c <= 0x7a {
        c - 0x61 + 10
    } else {
        36
    };
    if value < radix {
        Some(value)
    } else {
        None
    }
}

/// Reads `text` from `start` on as a number in the given radix.
pub fn read_number(text: &[u8], start: usize, radix: u8) -> (r: Result<u128, NumberError>)
    requires
        start <= text@.len(),
        1 <= radix <= 36,
    ensures
        r == number_of(text@.skip(start as int), radix as nat),
{
    let len: usize = text.len();
    let ghost whole = text@.skip(start as int);
    if start >= len {
        return Err(NumberError::Empty);
    }
    assert(whole[0] == text@[start as int]);
    let first: usize = if text[start] == 0x2b {
        start + 1
    } else {
        start
    };
    let ghost digits = unsigned_part(whole);
    assert(digits =~= text@.skip(first as int));
    if first >= len {
        return Err(NumberError::InvalidDigit);
    }
    let mut acc: u128 = 0;
    let mut overflow: bool = false;
    let mut i: usize = first;
    assert(digits.take(0) =~= Seq::<u8>::empty());
    while i < len
        invariant
            first <= i <= len,
            len == text@.len(),
            1 <= radix <= 36,
            whole == text@.skip(start as int),
            whole.len() > 0,
            digits == unsigned_part(whole),
            digits == text@.skip(first as int),
            digits_only(digits.take(i - first), radix as nat),
            !overflow ==> acc as nat == digits_value(digits.take(i - first), radix as nat),
            overflow ==> digits_value(digits.take(i - first), radix as nat) > u128::MAX,
        decreases len - i,
    {
        let ghost before = digits.take(i - first);
        let ghost upto = digits.take(i - first + 1);
        proof {
            assert(upto.drop_last() =~= before);
            assert(upto.last() == text@[i as int]);
        }
        let d: u8 = match digit(text[i], radix) {
            Some(d) => d,
            None => {
                assert(digits[i - first] == text@[i as int]);
                return Err(NumberError::InvalidDigit);
            },
        };
        proof {
            assert forall|j: int| 0 <= j < upto.len() implies digit_in(
                #[trigger] upto[j],
                radix as nat,
            ) is Some by {
                if j < before.len() {
                    assert(upto[j] == before[j]);
                }
            }
            let v = digits_value(before, radix as nat);
            assert(digits_value(upto, radix as nat) == radix as nat * v + d as nat);
            assert(radix as nat * v >= v && radix as nat * v == v * radix as nat)
                by (nonlinear_arith)
                requires
                    radix >= 1,
            ;
        }
        if !overflow {
            match acc.checked_mul(radix as u128) {
                None => {
                    overflow = true;
                },
                Some(scaled) => match scaled.checked_add(d as u128) {
                    None => {
                        overflow = true;
                    },
                    Some(sum) => {
                        acc = sum;
                    },
                },
            }
        }
        i = i + 1;
    }
    assert(digits.take(len - first) =~= digits);
    if overflow {
        Err(NumberError::Overflow)
    } else {
        Ok(acc)
    }
}

/// Reads a decimal number.
pub fn decimal_number(text: &[u8]) -> (r: Result<u128, NumberError>)
    ensures
        r == number_of(text@, 10),
{
    assert(text@.skip(0) =~= text@);
    read_number(text, 0, 10)
}

/// Reads a hexadecimal quantity behind its two-byte prefix.
pub fn to_number(text: &[u8]) -> (r: Result<u128, NumberError>)
    ensures
        r == quantity_of(text@),
{
    if text.len() < 2 {
        return Err(NumberError::TooShort);
    }
    read_number(text, 2, 16)
}

} // verus!
