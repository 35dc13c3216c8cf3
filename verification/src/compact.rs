//! Compact (variable-width) unsigned integers.
//!
//! A magnitude is written in the shortest of four forms. The two low bits of
//! the first byte name the form: `0` one byte, `1` two bytes, `2` four bytes,
//! `3` a byte count followed by that many little-endian bytes.

use crate::error::DecodeError;
use crate::fixed::{
    le_bytes, le_value, lemma_le_bytes_len, lemma_le_bytes_of_value, lemma_le_value_bound,
    lemma_le_value_of_bytes, lemma_le_value_push, lemma_pow256_monotonic, lemma_pow256_values,
    pow256, push_le, read_le,
};
use vstd::prelude::*;

verus! {

/// The largest magnitude that this library reads and writes: 128 bits.
pub open spec fn compact_limit() -> nat {
    pow256(16)
}

/// Which of the four forms a magnitude takes.
pub open spec fn compact_class(n: nat) -> nat {
    if n < 0x40 {
        0
    } else if n < 0x4000 {
        1
    } else if n < 0x4000_0000 {
        2
    } else {
        3
    }
}

/// How many bytes `n` needs, at least one.
pub open spec fn byte_len(n: nat) -> nat
    decreases n,
{
    if n < 256 {
        1
    } else {
        1 + byte_len(n / 256)
    }
}

/// How many bytes the compact form of `n` takes.
pub open spec fn compact_len(n: nat) -> nat {
    if n < 0x40 {
        1
    } else if n < 0x4000 {
        2
    } else if n < 0x4000_0000 {
        4
    } else {
        1 + byte_len(n)
    }
}

/// The compact form of `n`.
pub open spec fn compact_bytes(n: nat) -> Seq<u8> {
    if n < 0x40 {
        seq![(4 * n) as u8]
    } else if n < 0x4000 {
        le_bytes(4 * n + 1, 2)
    } else if n < 0x4000_0000 {
        le_bytes(4 * n + 2, 4)
    } else {
        seq![(4 * (byte_len(n) - 4) + 3) as u8] + le_bytes(n, byte_len(n))
    }
}

/// What reading a compact integer at the front of `input` gives: the
/// magnitude and the number of bytes taken, or the reason for refusing.
pub open spec fn compact_parse(input: Seq<u8>) -> Result<(nat, nat), DecodeError> {
    if input.len() == 0 {
        Err(DecodeError::UnexpectedEnd)
    } else {
        let mode = input[0] % 4;
        if mode == 0 {
            Ok(((input[0] / 4) as nat, 1))
        } else if mode == 1 {
            if input.len() < 2 {
                Err(DecodeError::UnexpectedEnd)
            } else {
                let x = le_value(input.subrange(0, 2)) / 4;
                if x < 0x40 {
                    Err(DecodeError::NonCanonicalCompact)
                } else {
                    Ok((x, 2))
                }
            }
        } else if mode == 2 {
            if input.len() < 4 {
                Err(DecodeError::UnexpectedEnd)
            } else {
                let x = le_value(input.subrange(0, 4)) / 4;
                if x < 0x4000 {
                    Err(DecodeError::NonCanonicalCompact)
                } else {
                    Ok((x, 4))
                }
            }
        } else {
            let k = (input[0] / 4 + 4) as nat;
            if k > 16 {
                Err(DecodeError::OutOfRange)
            } else if input.len() < 1 + k {
                Err(DecodeError::UnexpectedEnd)
            } else {
                let x = le_value(input.subrange(1, 1 + k as int));
                if x < 0x4000_0000 || input[k as int] == 0 {
                    Err(DecodeError::NonCanonicalCompact)
                } else {
                    Ok((x, 1 + k))
                }
            }
        }
    }
}

/// A number lies between the powers of 256 that its byte count names.
pub proof fn lemma_byte_len_bounds(n: nat)
    ensures
        byte_len(n) >= 1,
        n < pow256(byte_len(n)),
        n >= 256 ==> n >= pow256((byte_len(n) - 1) as nat),
    decreases n,
{
    reveal_with_fuel(pow256, 3);
    if n >= 256 {
        lemma_byte_len_bounds(n / 256);
    }
}

/// A number below 256 to the `k` and not below 256 to the `k - 1` needs `k`
/// bytes.
pub proof fn lemma_byte_len_unique(n: nat, k: nat)
    requires
        k >= 1,
        n < pow256(k),
        k == 1 || n >= pow256((k - 1) as nat),
    ensures
        byte_len(n) == k,
    decreases k,
{
    reveal_with_fuel(pow256, 3);
    if n < 256 {
        if k > 1 {
            lemma_pow256_monotonic(1, (k - 1) as nat);
        }
    } else {
        lemma_byte_len_unique(n / 256, (k - 1) as nat);
    }
}

/// The last byte of a byte string is zero exactly when the string spells a
/// number that fits in one byte fewer.
pub proof fn lemma_top_byte(s: Seq<u8>)
    requires
        s.len() >= 1,
    ensures
        s[s.len() - 1] == 0 <==> le_value(s) < pow256((s.len() - 1) as nat),
{
    let front = s.drop_last();
    let top = s.last();
    assert(front.push(top) =~= s);
    lemma_le_value_push(front, top);
    lemma_le_value_bound(front);
    let p = pow256(front.len());
    if top == 0 {
        assert(top as nat * p == 0) by (nonlinear_arith)
            requires
                top == 0,
        ;
    } else {
        assert(top as nat * p >= p) by (nonlinear_arith)
            requires
                top >= 1,
        ;
    }
}

/// A magnitude of at most 128 bits takes at most sixteen bytes.
pub proof fn lemma_byte_len_limit(n: nat)
    requires
        n < compact_limit(),
    ensures
        byte_len(n) <= 16,
        n >= 0x4000_0000 ==> byte_len(n) >= 4,
{
    lemma_byte_len_bounds(n);
    lemma_pow256_values();
    if byte_len(n) > 16 {
        lemma_pow256_monotonic(16, (byte_len(n) - 1) as nat);
    }
    if n >= 0x4000_0000 && byte_len(n) < 4 {
        lemma_pow256_monotonic(byte_len(n), 3);
    }
}

/// The form is fixed by the magnitude alone: its length and the two low
/// bits of its first byte follow from the class of `n`.
pub proof fn lemma_compact_class(n: nat)
    requires
        n < compact_limit(),
    ensures
        compact_bytes(n).len() == compact_len(n),
        compact_bytes(n)[0] % 4 == compact_class(n),
        compact_class(n) == 0 ==> compact_len(n) == 1,
        compact_class(n) == 1 ==> compact_len(n) == 2,
        compact_class(n) == 2 ==> compact_len(n) == 4,
        compact_class(n) == 3 ==> 5 <= compact_len(n) <= 17,
{
    lemma_byte_len_limit(n);
    lemma_le_bytes_len(4 * n + 1, 2);
    lemma_le_bytes_len(4 * n + 2, 4);
    lemma_le_bytes_len(n, byte_len(n));
    reveal_with_fuel(le_bytes, 2);
}

/// Reading what was written gives the magnitude back, whatever follows.
pub proof fn lemma_compact_round_trip(n: nat, rest: Seq<u8>)
    requires
        n < compact_limit(),
    ensures
        compact_parse(compact_bytes(n) + rest) == Ok::<(nat, nat), DecodeError>(
            (n, compact_len(n)),
        ),
{
    let bytes = compact_bytes(n);
    let input = bytes + rest;
    lemma_compact_class(n);
    lemma_pow256_values();
    assert(input[0] == bytes[0]);
    if n < 0x40 {
    } else if n < 0x4000 {
        assert(input.subrange(0, 2) =~= bytes);
        lemma_le_value_of_bytes(4 * n + 1, 2);
    } else if n < 0x4000_0000 {
        assert(input.subrange(0, 4) =~= bytes);
        lemma_le_value_of_bytes(4 * n + 2, 4);
    } else {
        let k = byte_len(n);
        lemma_byte_len_limit(n);
        lemma_byte_len_bounds(n);
        let body = le_bytes(n, k);
        lemma_le_bytes_len(n, k);
        assert(input.subrange(1, 1 + k as int) =~= body);
        lemma_le_value_of_bytes(n, k);
        lemma_top_byte(body);
        assert(input[k as int] == body[k - 1]);
    }
}

/// Only the shortest form is read: whatever is accepted is exactly what
/// writing the magnitude gives.
pub proof fn lemma_compact_canonical(input: Seq<u8>)
    requires
        compact_parse(input) is Ok,
    ensures
        ({
            let (n, used) = compact_parse(input)->Ok_0;
            &&& n < compact_limit()
            &&& used == compact_len(n)
            &&& used <= input.len()
            &&& input.subrange(0, used as int) == compact_bytes(n)
        }),
{
    let (n, used) = compact_parse(input)->Ok_0;
    lemma_pow256_values();
    let mode = input[0] % 4;
    if mode == 0 {
        assert(input.subrange(0, 1) =~= seq![input[0]]);
    } else if mode == 1 {
        let s = input.subrange(0, 2);
        reveal_with_fuel(le_value, 3);
        assert(s.skip(1).skip(1).len() == 0);
        lemma_le_value_bound(s);
        lemma_le_bytes_of_value(s);
    } else if mode == 2 {
        let s = input.subrange(0, 4);
        assert(le_value(s) == s[0] as nat + 256 * le_value(s.skip(1)));
        lemma_le_value_bound(s);
        lemma_le_bytes_of_value(s);
    } else {
        let k = (input[0] / 4 + 4) as nat;
        let s = input.subrange(1, 1 + k as int);
        lemma_le_value_bound(s);
        lemma_pow256_monotonic(k, 16);
        lemma_top_byte(s);
        assert(s[k - 1] == input[k as int]);
        lemma_byte_len_unique(n, k);
        lemma_le_bytes_of_value(s);
        assert(input.subrange(0, used as int) =~= seq![input[0]] + s);
    }
}

/// How many bytes `n` needs, at least one.
pub fn byte_length(n: u128) -> (k: usize)
    ensures
        k as nat == byte_len(n as nat),
        1 <= k <= 16,
{
    let mut k: usize = 1;
    let mut rest: u128 = n;
    proof {
        lemma_pow256_values();
        lemma_byte_len_limit(n as nat);
    }
    while rest >= 256
        invariant
            1 <= k,
            k - 1 + byte_len(rest as nat) == byte_len(n as nat),
            byte_len(n as nat) <= 16,
        decreases rest,
    {
        proof {
            lemma_byte_len_bounds((rest / 256) as nat);
        }
        rest = rest / 256;
        k = k + 1;
    }
    k
}

/// Appends the compact form of `n`.
pub fn push_compact(out: &mut Vec<u8>, n: u128)
    ensures
        final(out)@ == old(out)@ + compact_bytes(n as nat),
{
    proof {
        lemma_pow256_values();
    }
    if n < 0x40 {
        let b: u8 = (4 * n) as u8;
        out.push(b);
        assert(out@ =~= old(out)@ + compact_bytes(n as nat));
    } else if n < 0x4000 {
        push_le(out, 4 * n + 1, 2);
    } else if n < 0x4000_0000 {
        push_le(out, 4 * n + 2, 4);
    } else {
        let k: usize = byte_length(n);
        proof {
            lemma_byte_len_limit(n as nat);
            lemma_byte_len_bounds(n as nat);
        }
        let head: u8 = (4 * (k - 4) + 3) as u8;
        out.push(head);
        push_le(out, n, k);
        assert(out@ =~= old(out)@ + compact_bytes(n as nat));
    }
}

/// The compact form of `n`.
pub fn encode_compact(n: u128) -> (out: Vec<u8>)
    ensures
        out@ == compact_bytes(n as nat),
{
    let mut out: Vec<u8> = Vec::new();
    push_compact(&mut out, n);
    assert(out@ =~= compact_bytes(n as nat));
    out
}

/// Reads a compact integer at `start`, giving the magnitude and the number
/// of bytes taken.
pub fn decode_compact_at(input: &[u8], start: usize) -> (r: Result<(u128, usize), DecodeError>)
    requires
        start <= input@.len(),
    ensures
        match compact_parse(input@.skip(start as int)) {
            Ok((n, used)) => r is Ok && r->Ok_0.0 as nat == n && r->Ok_0.1 as nat == used
                && start + used <= input@.len(),
            Err(e) => r is Err && r->Err_0 == e,
        },
{
    let len: usize = input.len();
    let ghost tail = input@.skip(start as int);
    if start >= len {
        return Err(DecodeError::UnexpectedEnd);
    }
    let first: u8 = input[start];
    assert(tail[0] == first);
    let mode: u8 = first % 4;
    proof {
        lemma_pow256_values();
    }
    if mode == 0 {
        Ok(((first / 4) as u128, 1))
    } else if mode == 1 {
        if len - start < 2 {
            return Err(DecodeError::UnexpectedEnd);
        }
        let raw: u128 = read_le(input, start, 2);
        proof {
            assert(tail.subrange(0, 2) =~= input@.subrange(start as int, start + 2));
            lemma_le_value_bound(tail.subrange(0, 2));
        }
        let x: u128 = raw / 4;
        if x < 0x40 {
            Err(DecodeError::NonCanonicalCompact)
        } else {
            Ok((x, 2))
        }
    } else if mode == 2 {
        if len - start < 4 {
            return Err(DecodeError::UnexpectedEnd);
        }
        let raw: u128 = read_le(input, start, 4);
        proof {
            assert(tail.subrange(0, 4) =~= input@.subrange(start as int, start + 4));
            lemma_le_value_bound(tail.subrange(0, 4));
        }
        let x: u128 = raw / 4;
        if x < 0x4000 {
            Err(DecodeError::NonCanonicalCompact)
        } else {
            Ok((x, 4))
        }
    } else {
        let k: usize = (first / 4) as usize + 4;
        if k > 16 {
            return Err(DecodeError::OutOfRange);
        }
        if len - start < 1 + k {
            return Err(DecodeError::UnexpectedEnd);
        }
        let x: u128 = read_le(input, start + 1, k);
        let top: u8 = input[start + k];
        proof {
            assert(tail.subrange(1, 1 + k) =~= input@.subrange(start + 1, start + 1 + k));
            assert(tail[k as int] == top);
        }
        if x < 0x4000_0000 || top == 0 {
            Err(DecodeError::NonCanonicalCompact)
        } else {
            Ok((x, 1 + k))
        }
    }
}

/// Reads a compact integer at the front of `input`.
pub fn decode_compact(input: &[u8]) -> (r: Result<(u128, usize), DecodeError>)
    ensures
        match compact_parse(input@) {
            Ok((n, used)) => r is Ok && r->Ok_0.0 as nat == n && r->Ok_0.1 as nat == used && used
                <= input@.len(),
            Err(e) => r is Err && r->Err_0 == e,
        },
{
    assert(input@.skip(0) =~= input@);
    decode_compact_at(input, 0)
}

} // verus!
