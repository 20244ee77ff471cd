//! Aligned blocks of a sequence: what the stages of the transform work on.
//!
//! A block of width `w` starts at a multiple of `w`. When `w` and the length
//! are powers of two, the blocks of width `w` tile the sequence, and each
//! block of width `2 * w` is made of two neighbouring blocks of width `w`.

use crate::length::lemma_pow2_gap;
use crate::length::lemma_pow2_halves;
use crate::length::lemma_pow2_positive;
use crate::model::combinable;
use crate::model::combine;
use crate::model::transform;
use crate::model::transformable;
use std::ops::Add;
use std::ops::Sub;
use vstd::arithmetic::div_mod::lemma_add_mod_noop;
use vstd::arithmetic::div_mod::lemma_mod_mod;
use vstd::arithmetic::div_mod::lemma_mod_self_0;
use vstd::arithmetic::div_mod::lemma_small_mod;
use vstd::arithmetic::div_mod::lemma_sub_mod_noop;
use vstd::arithmetic::power2::is_pow2;
use vstd::prelude::*;

verus! {

/// The `width` elements of `s` from `start` on.
pub open spec fn block<T>(s: Seq<T>, start: int, width: int) -> Seq<T> {
    s.subrange(start, start + width)
}

/// Two different multiples of `d` are at least `d` apart.
pub proof fn lemma_multiples_apart(a: int, b: int, d: int)
    requires
        d > 0,
        a % d == 0,
        b % d == 0,
        a < b,
    ensures
        a + d <= b,
{
    lemma_sub_mod_noop(b, a, d);
    lemma_small_mod(0, d as nat);
    if b - a < d {
        lemma_small_mod((b - a) as nat, d as nat);
    }
}

/// The sum and the difference of two multiples of `d` are multiples of `d`.
pub proof fn lemma_multiples_add_sub(a: int, b: int, d: int)
    requires
        d > 0,
        a % d == 0,
        b % d == 0,
    ensures
        (a + b) % d == 0,
        (a - b) % d == 0,
{
    lemma_add_mod_noop(a, b, d);
    lemma_sub_mod_noop(a, b, d);
    lemma_small_mod(0, d as nat);
}

/// A multiple of `2 * d` is a multiple of `d`.
pub proof fn lemma_multiple_of_double(a: int, d: int)
    requires
        d > 0,
        a % (2 * d) == 0,
    ensures
        a % d == 0,
{
    lemma_mod_mod(a, d, 2);
    lemma_small_mod(0, d as nat);
    assert(d * 2 == 2 * d);
}

/// A power of two divides every power of two that is not smaller.
pub proof fn lemma_pow2_divides(w: int, n: int)
    requires
        is_pow2(w),
        is_pow2(n),
        w <= n,
    ensures
        n % w == 0,
    decreases n,
{
    lemma_pow2_positive(w);
    if w == n {
        lemma_mod_self_0(w);
    } else {
        lemma_pow2_gap(w, n);
        lemma_pow2_halves(n);
        lemma_pow2_divides(w, n / 2);
        lemma_multiples_add_sub(n / 2, n / 2, w);
    }
}

/// Where the transform of a sequence can be computed, so can the transform of
/// each of its aligned blocks.
pub proof fn lemma_block_transformable<T: Add<Output = T> + Sub<Output = T>>(
    s: Seq<T>,
    start: int,
    width: int,
)
    requires
        is_pow2(s.len() as int),
        is_pow2(width),
        0 <= start,
        start + width <= s.len(),
        start % width == 0,
        transformable(s),
    ensures
        transformable(block(s, start, width)),
    decreases s.len(),
{
    let n = s.len() as int;
    lemma_pow2_positive(width);
    if width == n {
        assert(block(s, start, width) =~= s);
    } else {
        lemma_pow2_gap(width, n);
        lemma_pow2_halves(n);
        let half = n / 2;
        let lo = s.subrange(0, half);
        let hi = s.subrange(half, n);
        lemma_pow2_divides(width, half);
        if start < half {
            lemma_multiples_apart(start, half, width);
            lemma_block_transformable(lo, start, width);
            assert(block(lo, start, width) =~= block(s, start, width));
        } else {
            lemma_multiples_add_sub(start, half, width);
            lemma_block_transformable(hi, start - half, width);
            assert(block(hi, start - half, width) =~= block(s, start, width));
        }
    }
}

/// Whether each aligned block of `width` elements of `d` that ends at or
/// before `upto` holds the transform of the same block of `s`.
pub open spec fn blocks_transformed<T: Add<Output = T> + Sub<Output = T>>(
    d: Seq<T>,
    s: Seq<T>,
    width: int,
    upto: int,
) -> bool {
    forall|start: int|
        0 <= start && start + width <= upto && start % width == 0 ==> #[trigger] block(
            d,
            start,
            width,
        ) == transform(block(s, start, width))
}

/// One stage on one block. Where the blocks of width `h` of `d` hold the
/// transforms of the blocks of `s`, the transform of a block of width `2 * h`
/// of `s` combines the two blocks of `d` that it covers.
pub proof fn lemma_block_stage<T: Add<Output = T> + Sub<Output = T>>(
    d: Seq<T>,
    s: Seq<T>,
    start: int,
    h: int,
)
    requires
        h >= 1,
        d.len() == s.len(),
        0 <= start,
        start + 2 * h <= s.len(),
        start % (2 * h) == 0,
        blocks_transformed(d, s, h, s.len() as int),
        transformable(block(s, start, 2 * h)),
    ensures
        combinable(block(d, start, h), block(d, start + h, h)),
        transform(block(s, start, 2 * h)) == combine(block(d, start, h), block(d, start + h, h)),
{
    let whole = block(s, start, 2 * h);
    lemma_multiple_of_double(start, h);
    lemma_mod_self_0(h);
    lemma_multiples_add_sub(start, h, h);
    assert(whole.len() as int / 2 == h);
    assert(whole.subrange(0, h) =~= block(s, start, h));
    assert(whole.subrange(h, whole.len() as int) =~= block(s, start + h, h));
    assert(block(d, start, h) == transform(block(s, start, h)));
    assert(block(d, start + h, h) == transform(block(s, start + h, h)));
}

} // verus!
