use vstd::prelude::*;
use vstd::arithmetic::power2::{pow2, lemma2_to64, lemma2_to64_rest, lemma_pow2_adds, lemma_pow2_unfold, lemma_pow2_strictly_increases};

verus! {

/// The largest power of two not above `n`, as its exponent.
pub open spec fn log2_floor(n: nat) -> nat
    decreases n,
{
    if n < 2 {
        0
    } else {
        1 + log2_floor(n / 2)
    }
}

/// The IEEE-754 double-precision bit pattern of the whole number `n`, for
/// `n` below 2^53 (where the conversion is exact): biased exponent in bits
/// 52..62, the bits of `n` below its leading one as the fraction.
pub open spec fn float_bits_of_count(n: nat) -> int {
    if n == 0 {
        0
    } else {
        let e = log2_floor(n);
        (1023 + e) * pow2(52) + (n - pow2(e)) * pow2((52 - e) as nat)
    }
}

/// Below this bound every count has an exact number.
pub const EXACT_LIMIT: u64 = 9007199254740992;

/// The number that a count denotes, as its bit pattern.
pub fn number_of_count(n: u64) -> (r: u64)
    requires
        n < EXACT_LIMIT,
    ensures
        r == float_bits_of_count(n as nat),
{
    if n == 0 {
        return 0;
    }
    proof {
        lemma2_to64();
        lemma2_to64_rest();
        lemma_pow2_unfold(53);
    }
    let mut m: u64 = n;
    let mut p: u64 = 1;
    let mut e: u64 = 0;
    while m >= 2
        invariant
            1 <= m <= n,
            p == pow2(e as nat),
            1 <= p <= n,
            e < 53,
            m * p <= n < (m + 1) * p,
            e + log2_floor(m as nat) == log2_floor(n as nat),
            n < EXACT_LIMIT,
        decreases m,
    {
        let h: u64 = m / 2;
        let bit: u64 = m % 2;
        proof {
            lemma_pow2_unfold((e + 1) as nat);
            assert(m == 2 * h + bit);
            assert(h * (2 * p) <= m * p) by (nonlinear_arith)
                requires
                    m == 2 * h + bit,
                    bit >= 0,
                    p >= 1,
            ;
            assert((m + 1) * p <= (h + 1) * (2 * p)) by (nonlinear_arith)
                requires
                    m == 2 * h + bit,
                    bit <= 1,
                    p >= 1,
            ;
            assert(2 * p <= h * (2 * p)) by (nonlinear_arith)
                requires
                    h >= 1,
                    p >= 1,
            ;
            lemma2_to64();
            lemma2_to64_rest();
            if e + 1 > 53 {
                lemma_pow2_strictly_increases(53, (e + 1) as nat);
            }
        }
        m = h;
        p = 2 * p;
        e = e + 1;
    }
    proof {
        assert(m == 1);
        assert(n < 2 * p) by (nonlinear_arith)
            requires
                m == 1,
                n < (m + 1) * p,
        ;
    }
    let mut q: u64 = 1;
    let mut i: u64 = e;
    while i < 52
        invariant
            e <= i <= 52,
            q == pow2((i - e) as nat),
        decreases 52 - i,
    {
        proof {
            lemma2_to64();
            lemma2_to64_rest();
            lemma_pow2_unfold((i + 1 - e) as nat);
            if i + 1 - e < 52 {
                lemma_pow2_strictly_increases((i + 1 - e) as nat, 52);
            }
        }
        q = 2 * q;
        i = i + 1;
    }
    proof {
        lemma2_to64();
        lemma2_to64_rest();
        lemma_pow2_adds(e as nat, (52 - e) as nat);
        assert((n - p) * q < p * q) by (nonlinear_arith)
            requires
                n - p < p,
                q >= 1,
        ;
    }
    (1023 + e) * 4503599627370496 + (n - p) * q
}

} // verus!
