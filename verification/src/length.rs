//! Which lengths the transform accepts, and how to round a length up to one.

use vstd::arithmetic::power2::is_pow2;
use vstd::prelude::*;

verus! {

/// The lengths the transform accepts: zero and the powers of two.
pub open spec fn valid_length(n: nat) -> bool {
    n == 0 || is_pow2(n as int)
}

/// A power of two that is at least 2 is even, and its half is a power of two.
pub proof fn lemma_pow2_halves(n: int)
    requires
        is_pow2(n),
        n >= 2,
    ensures
        n % 2 == 0,
        is_pow2(n / 2),
{
    reveal(is_pow2);
}

/// Twice a power of two is a power of two.
pub proof fn lemma_pow2_doubles(n: int)
    requires
        is_pow2(n),
    ensures
        is_pow2(2 * n),
{
    reveal(is_pow2);
}

/// Every power of two is positive.
pub proof fn lemma_pow2_positive(n: int)
    requires
        is_pow2(n),
    ensures
        n >= 1,
{
    reveal(is_pow2);
}

/// Between a power of two and its double there is no other power of two:
/// a power of two above `h` is at least `2 * h`.
pub proof fn lemma_pow2_gap(h: int, n: int)
    requires
        is_pow2(h),
        is_pow2(n),
        h < n,
    ensures
        2 * h <= n,
    decreases h,
{
    reveal(is_pow2);
    if h > 1 {
        lemma_pow2_gap(h / 2, n / 2);
    }
}

/// A nonzero 64-bit number is a power of two exactly when clearing its lowest
/// set bit leaves nothing.
proof fn lemma_single_bit(n: u64)
    requires
        n >= 1,
    ensures
        (n & ((n - 1) as u64) == 0) == is_pow2(n as int),
    decreases n,
{
    reveal(is_pow2);
    if n == 1 {
        assert(1u64 & ((1u64 - 1) as u64) == 0) by (bit_vector);
    } else if n % 2 == 0 {
        let m: u64 = n / 2;
        lemma_single_bit(m);
        assert((n & ((n - 1) as u64) == 0) == (m & ((m - 1) as u64) == 0)) by (bit_vector)
            requires
                n >= 2,
                n % 2 == 0,
                m == n / 2,
        ;
    } else {
        assert(n & ((n - 1) as u64) != 0) by (bit_vector)
            requires
                n >= 3,
                n % 2 == 1,
        ;
    }
}

/// Whether a sequence of `n` elements can be transformed: `n` is zero or a
/// power of two.
pub fn is_valid_fwht_length(n: usize) -> (valid: bool)
    ensures
        valid == valid_length(n as nat),
{
    if n == 0 {
        return true;
    }
    let m: u64 = n as u64;
    proof {
        lemma_single_bit(m);
    }
    m & (m - 1) == 0
}

/// The largest `usize` whose next power of two still fits in a `usize`.
pub open spec fn max_roundable() -> nat {
    (usize::MAX / 2 + 1) as nat
}

/// The smallest power of two that is at least `n`; 1 for `n` of 0 or 1.
pub fn next_power_of_two(n: usize) -> (p: usize)
    requires
        n <= max_roundable(),
    ensures
        is_pow2(p as int),
        n <= p,
        forall|q: int| is_pow2(q) && n <= q ==> p <= q,
        n <= 1 ==> p == 1,
{
    let mut p: usize = 1;
    proof {
        reveal(is_pow2);
    }
    while p < n
        invariant
            n <= max_roundable(),
            p >= 1,
            is_pow2(p as int),
            p == 1 || p / 2 < n,
        decreases usize::MAX - p,
    {
        proof {
            lemma_pow2_doubles(p as int);
        }
        p = p * 2;
    }
    assert forall|q: int| is_pow2(q) && n <= q implies p <= q by {
        lemma_pow2_positive(q);
        if q < p {
            lemma_pow2_gap(q, p as int);
        }
    }
    p
}

} // verus!
