//! How long a transaction stays valid.

use crate::fixed::{le_bytes, lemma_pow256_values, push_le};
use vstd::prelude::*;

verus! {

/// The longevity of a transaction.
#[derive(Clone, Copy, Debug, PartialEq, Eq, Structural)]
pub enum Era {
    /// Valid forever.
    Immortal,
    /// Valid for `period` blocks from the block at `phase` within the period.
    Mortal { period: u64, phase: u64 },
}

/// Whether `n` is a power of two.
pub open spec fn power_of_two(n: nat) -> bool
    decreases n,
{
    if n <= 1 {
        n == 1
    } else {
        n % 2 == 0 && power_of_two(n / 2)
    }
}

/// The exponent of the largest power of two that is at most `n`.
pub open spec fn exponent(n: nat) -> nat
    decreases n,
{
    if n <= 1 {
        0
    } else {
        1 + exponent(n / 2)
    }
}

/// The step in which phases of a period are counted: periods beyond 4096
/// blocks leave only twelve bits for the phase.
pub open spec fn quantum(period: nat) -> nat {
    if period / 4096 >= 1 {
        period / 4096
    } else {
        1
    }
}

impl Era {
    /// Whether a mortal era has a period that is a power of two from 4 to
    /// 65536 and a phase within the period.
    pub open spec fn well_formed(self) -> bool {
        match self {
            Era::Immortal => true,
            Era::Mortal { period, phase } => power_of_two(period as nat) && 4 <= period <= 65536
                && phase < period,
        }
    }

    /// The number that a mortal era is written as: the exponent of the
    /// period less one in the low four bits, the counted phase above them.
    pub open spec fn code(self) -> nat {
        match self {
            Era::Immortal => 0,
            Era::Mortal { period, phase } => (exponent(period as nat) - 1 + 16 * (phase as nat
                / quantum(period as nat))) as nat,
        }
    }

    /// The bytes that the era is written as: one zero byte for an immortal
    /// one, two bytes for a mortal one.
    pub open spec fn bytes(self) -> Seq<u8> {
        match self {
            Era::Immortal => seq![0u8],
            Era::Mortal { .. } => le_bytes(self.code(), 2),
        }
    }

    /// Whether the era is immortal.
    pub fn is_immortal(&self) -> (b: bool)
        ensures
            b == (*self == Era::Immortal),
    {
        match self {
            Era::Immortal => true,
            Era::Mortal { .. } => false,
        }
    }

    /// Whether the era is well formed.
    pub fn is_well_formed(&self) -> (b: bool)
        ensures
            b == self.well_formed(),
    {
        match self {
            Era::Immortal => true,
            Era::Mortal { period, phase } => {
                *period >= 4 && *period <= 65536 && *phase < *period && is_power_of_two(*period)
            },
        }
    }

    /// The mortal era of the least period that is a power of two, at least
    /// 4, at most 65536 and, where that allows it, at least `period`; its
    /// phase is the place of `current` in that period, rounded down to a
    /// multiple of the period's quantum.
    pub fn mortal(period: u64, current: u64) -> (era: Era)
        ensures
            era.well_formed(),
            era matches Era::Mortal { period: p, phase } && {
                &&& p >= period || p == 65536
                &&& p == 4 || p / 2 < period
                &&& phase as nat == (current as nat % p as nat) / quantum(p as nat) * quantum(
                    p as nat,
                )
            },
    {
        let mut p: u64 = 4;
        assert(power_of_two(4) && power_of_two(65536)) by {
            reveal_with_fuel(power_of_two, 18);
        }
        while p < period && p < 65536
            invariant
                4 <= p <= 65536,
                power_of_two(p as nat),
                power_of_two(65536),
                p == 4 || p / 2 < period,
            decreases 65536 - p,
        {
            assert(power_of_two(2 * p as nat));
            p = 2 * p;
            assert(p <= 65536) by {
                lemma_power_of_two_gap(p as nat / 2, 65536);
            }
        }
        let q: u64 = if p / 4096 >= 1 {
            p / 4096
        } else {
            1
        };
        let place: u64 = current % p;
        let counted: u64 = place / q;
        assert(counted * q <= place) by (nonlinear_arith)
            requires
                counted == place / q,
                q >= 1,
        ;
        let phase: u64 = counted * q;
        Era::Mortal { period: p, phase }
    }

    /// Appends the bytes that the era is written as.
    pub fn push_bytes(&self, out: &mut Vec<u8>)
        requires
            self.well_formed(),
        ensures
            final(out)@ == old(out)@ + self.bytes(),
    {
        match self {
            Era::Immortal => {
                out.push(0u8);
                assert(out@ =~= old(out)@ + self.bytes());
            },
            Era::Mortal { period, phase } => {
                let k: u64 = exponent_of(*period);
                let q: u64 = if *period / 4096 >= 1 {
                    *period / 4096
                } else {
                    1
                };
                let counted: u64 = *phase / q;
                proof {
                    lemma_small_power(*period as nat);
                    lemma_pow256_values();
                    if *period <= 4096 {
                        assert(q == 1);
                    } else if *period == 8192 {
                        assert(q == 2);
                    } else if *period == 16384 {
                        assert(q == 4);
                    } else if *period == 32768 {
                        assert(q == 8);
                    } else {
                        assert(q == 16);
                    }
                    assert(counted < 4096);
                }
                let code: u64 = k - 1 + 16 * counted;
                push_le(out, code as u128, 2);
            },
        }
    }
}

/// The powers of two up to 65536.
pub proof fn lemma_small_power(n: nat)
    requires
        power_of_two(n),
        n <= 65536,
    ensures
        n == 1 || n == 2 || n == 4 || n == 8 || n == 16 || n == 32 || n == 64 || n == 128 || n
            == 256 || n == 512 || n == 1024 || n == 2048 || n == 4096 || n == 8192 || n == 16384
            || n == 32768 || n == 65536,
    decreases n,
{
    if n > 1 {
        lemma_small_power(n / 2);
    }
}

/// Between a power of two and the next there is no other.
pub proof fn lemma_power_of_two_gap(a: nat, b: nat)
    requires
        power_of_two(a),
        power_of_two(b),
        a < b,
    ensures
        2 * a <= b,
    decreases a,
{
    if a > 1 {
        lemma_power_of_two_gap(a / 2, b / 2);
    }
}

/// Whether `n` is a power of two.
pub fn is_power_of_two(n: u64) -> (b: bool)
    ensures
        b == power_of_two(n as nat),
{
    let mut m: u64 = n;
    while m > 1 && m % 2 == 0
        invariant
            power_of_two(m as nat) == power_of_two(n as nat),
        decreases m,
    {
        m = m / 2;
    }
    m == 1
}

/// A number up to 65536 has an exponent up to 16.
pub proof fn lemma_exponent_small(n: nat)
    requires
        n <= 65536,
    ensures
        exponent(n) <= 16,
        n >= 2 ==> exponent(n) >= 1,
{
    reveal_with_fuel(exponent, 18);
}

/// The exponent of the largest power of two that is at most `n`.
pub fn exponent_of(n: u64) -> (k: u64)
    requires
        n <= 65536,
    ensures
        k as nat == exponent(n as nat),
        k <= 16,
        n >= 2 ==> k >= 1,
{
    let mut m: u64 = n;
    let mut k: u64 = 0;
    proof {
        lemma_exponent_small(n as nat);
    }
    while m > 1
        invariant
            k as nat + exponent(m as nat) == exponent(n as nat),
            exponent(n as nat) <= 16,
        decreases m,
    {
        m = m / 2;
        k = k + 1;
    }
    k
}

} // verus!
