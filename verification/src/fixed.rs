//! Fixed-width little-endian integers.

use vstd::prelude::*;

verus! {

/// 256 to the power `k`.
pub open spec fn pow256(k: nat) -> nat
    decreases k,
{
    if k == 0 {
        1
    } else {
        256 * pow256((k - 1) as nat)
    }
}

/// The `k` low-order bytes of `n`, least significant first.
pub open spec fn le_bytes(n: nat, k: nat) -> Seq<u8>
    decreases k,
{
    if k == 0 {
        Seq::empty()
    } else {
        seq![(n % 256) as u8] + le_bytes(n / 256, (k - 1) as nat)
    }
}

/// The number that `s` spells, least significant byte first.
pub open spec fn le_value(s: Seq<u8>) -> nat
    decreases s.len(),
{
    if s.len() == 0 {
        0
    } else {
        s[0] as nat + 256 * le_value(s.skip(1))
    }
}

/// The two's-complement residue of `x` in `k` bytes.
pub open spec fn twos_complement(x: int, k: nat) -> nat {
    if x >= 0 {
        x as nat
    } else {
        (x + pow256(k)) as nat
    }
}

/// The signed number that the `k`-byte residue `n` stands for.
pub open spec fn from_twos_complement(n: nat, k: nat) -> int {
    if 2 * n < pow256(k) {
        n as int
    } else {
        n - pow256(k)
    }
}

/// The powers of 256 that bound the integers of 1, 2, 4, 8 and 16 bytes.
pub proof fn lemma_pow256_values()
    ensures
        pow256(0) == 1,
        pow256(1) == 0x100,
        pow256(2) == 0x1_0000,
        pow256(3) == 0x100_0000,
        pow256(4) == 0x1_0000_0000,
        pow256(8) == 0x1_0000_0000_0000_0000,
        pow256(16) == 0x1_0000_0000_0000_0000_0000_0000_0000_0000,
{
    reveal_with_fuel(pow256, 17);
}

/// A power of 256 is at least 1.
pub proof fn lemma_pow256_positive(k: nat)
    ensures
        pow256(k) >= 1,
    decreases k,
{
    if k > 0 {
        lemma_pow256_positive((k - 1) as nat);
    }
}

/// A larger exponent gives no smaller power.
pub proof fn lemma_pow256_monotonic(a: nat, b: nat)
    requires
        a <= b,
    ensures
        pow256(a) <= pow256(b),
    decreases b,
{
    if a < b {
        lemma_pow256_monotonic(a, (b - 1) as nat);
        lemma_pow256_positive((b - 1) as nat);
    }
}

/// Writing `k` bytes gives `k` bytes.
pub proof fn lemma_le_bytes_len(n: nat, k: nat)
    ensures
        le_bytes(n, k).len() == k,
    decreases k,
{
    if k > 0 {
        lemma_le_bytes_len(n / 256, (k - 1) as nat);
    }
}

/// A byte string spells a number below 256 to the power of its length.
pub proof fn lemma_le_value_bound(s: Seq<u8>)
    ensures
        le_value(s) < pow256(s.len()),
    decreases s.len(),
{
    if s.len() > 0 {
        lemma_le_value_bound(s.skip(1));
    }
}

/// Reading back the bytes of a number that fits gives the number.
pub proof fn lemma_le_value_of_bytes(n: nat, k: nat)
    requires
        n < pow256(k),
    ensures
        le_value(le_bytes(n, k)) == n,
    decreases k,
{
    if k > 0 {
        let rest = le_bytes(n / 256, (k - 1) as nat);
        let all = le_bytes(n, k);
        lemma_le_bytes_len(n / 256, (k - 1) as nat);
        assert(all.skip(1) =~= rest);
        lemma_le_value_of_bytes(n / 256, (k - 1) as nat);
    }
}

/// Writing the number that a byte string spells gives the byte string.
pub proof fn lemma_le_bytes_of_value(s: Seq<u8>)
    ensures
        le_bytes(le_value(s), s.len()) == s,
    decreases s.len(),
{
    if s.len() > 0 {
        let tail = s.skip(1);
        lemma_le_bytes_of_value(tail);
        let n = le_value(s);
        assert(n % 256 == s[0] as nat);
        assert(n / 256 == le_value(tail));
        assert(le_bytes(n, s.len()) =~= s);
    } else {
        assert(le_bytes(le_value(s), s.len()) =~= s);
    }
}

/// Appending a byte adds that byte, scaled by its position.
pub proof fn lemma_le_value_push(s: Seq<u8>, b: u8)
    ensures
        le_value(s.push(b)) == le_value(s) + b as nat * pow256(s.len()),
    decreases s.len(),
{
    let t = s.push(b);
    if s.len() == 0 {
        assert(t.skip(1) =~= Seq::<u8>::empty());
        assert(le_value(t) == t[0] as nat + 256 * le_value(t.skip(1)));
        assert(b as nat * pow256(0) == b as nat) by (nonlinear_arith)
            requires
                pow256(0) == 1,
        ;
    } else {
        assert(t.skip(1) =~= s.skip(1).push(b));
        lemma_le_value_push(s.skip(1), b);
        let p = pow256((s.len() - 1) as nat);
        assert(256 * (b as nat * p) == b as nat * (256 * p)) by (nonlinear_arith);
        assert(le_value(t) == t[0] as nat + 256 * le_value(t.skip(1)));
        assert(t[0] == s[0]);
    }
}

/// Appends `x` as `width` bytes, least significant first. The number fits
/// the width: nothing of it is cut off.
pub fn push_le(out: &mut Vec<u8>, x: u128, width: usize)
    requires
        x < pow256(width as nat),
    ensures
        final(out)@ == old(out)@ + le_bytes(x as nat, width as nat),
{
    let mut rest: u128 = x;
    let mut i: usize = 0;
    assert(out@ + le_bytes(rest as nat, 0nat) =~= out@);
    while i < width
        invariant
            i <= width,
            out@ + le_bytes(rest as nat, (width - i) as nat) == old(out)@ + le_bytes(
                x as nat,
                width as nat,
            ),
        decreases width - i,
    {
        let ghost before = out@;
        let b: u8 = (rest % 256) as u8;
        out.push(b);
        proof {
            let tail = le_bytes((rest / 256) as nat, (width - i - 1) as nat);
            assert(le_bytes(rest as nat, (width - i) as nat) == seq![b] + tail);
            assert(before.push(b) + tail =~= before + (seq![b] + tail));
        }
        rest = rest / 256;
        i = i + 1;
    }
    assert(out@ + le_bytes(rest as nat, 0nat) =~= out@);
}

/// Reads `width` bytes at `start`, least significant first.
pub fn read_le(input: &[u8], start: usize, width: usize) -> (x: u128)
    requires
        width <= 16,
        start + width <= input@.len(),
    ensures
        x as nat == le_value(input@.subrange(start as int, start + width)),
{
    let n: usize = input.len();
    let mut acc: u128 = 0;
    let mut i: usize = width;
    proof {
        assert(input@.subrange(start + width, start + width).len() == 0);
    }
    while i > 0
        invariant
            i <= width,
            width <= 16,
            n == input@.len(),
            start + width <= n,
            acc as nat == le_value(input@.subrange(start + i, start + width)),
        decreases i,
    {
        let b: u8 = input[start + i - 1];
        proof {
            let hi = input@.subrange(start + i, start + width);
            let lo = input@.subrange(start + i - 1, start + width);
            assert(lo.skip(1) =~= hi);
            assert(lo[0] == b);
            lemma_le_value_bound(hi);
            lemma_pow256_monotonic((width - i) as nat, 15);
            assert(pow256(15) == 0x100_0000_0000_0000_0000_0000_0000_0000) by {
                reveal_with_fuel(pow256, 16);
            }
        }
        acc = acc * 256 + b as u128;
        i = i - 1;
    }
    acc
}

} // verus!
