//! The transform engine: the butterfly stages, in place, on a mutable slice.

use crate::blocks::block;
use crate::blocks::blocks_transformed;
use crate::blocks::lemma_block_stage;
use crate::blocks::lemma_block_transformable;
use crate::blocks::lemma_multiples_add_sub;
use crate::blocks::lemma_multiples_apart;
use crate::blocks::lemma_pow2_divides;
use crate::error::FwhtError;
use crate::length::is_valid_fwht_length;
use crate::length::lemma_pow2_doubles;
use crate::length::lemma_pow2_gap;
use crate::length::valid_length;
use crate::model::combinable;
use crate::model::combine;
use crate::model::exact_arithmetic;
use crate::model::transform;
use crate::model::transformable;
use std::ops::Add;
use std::ops::Sub;
use vstd::arithmetic::div_mod::lemma_mod_self_0;
use vstd::arithmetic::div_mod::lemma_small_mod;
use vstd::arithmetic::power2::is_pow2;
use vstd::prelude::*;
use vstd::std_specs::ops::AddSpec;
use vstd::std_specs::ops::SubSpec;

verus! {

/// Transforms `data` in place.
///
/// A length that is neither zero nor a power of two is refused before any
/// element is touched. Otherwise the stages run with half-widths 1, 2, 4, ...
/// up to half the length; each stage replaces, in every block of twice its
/// half-width, the pairs `(x, y)` that lie a half-width apart by
/// `(x + y, x - y)`.
///
/// The caller answers for the arithmetic: every sum and difference that the
/// transform takes must be one that `T` permits (`transformable`), which for
/// the machine integers means that none overflows.
pub fn fwht_slice<T>(data: &mut [T]) -> (r: Result<(), FwhtError>) where
    T: Add<Output = T> + Sub<Output = T> + Copy,

    requires
        valid_length(old(data)@.len()) ==> transformable(old(data)@),
    ensures
        valid_length(old(data)@.len()) ==> r is Ok && final(data)@ == transform(old(data)@),
        !valid_length(old(data)@.len()) ==> r == Err::<(), FwhtError>(FwhtError::InvalidLength)
            && final(data)@ == old(data)@,
{
    let n = data.len();
    if !is_valid_fwht_length(n) {
        return Err(FwhtError::InvalidLength);
    }
    if n == 0 {
        return Ok(());
    }
    let ghost orig = data@;
    let mut h: usize = 1;
    proof {
        reveal(is_pow2);
        assert forall|start: int| 0 <= start && start + 1 <= n implies #[trigger] block(
            data@,
            start,
            1,
        ) == transform(block(orig, start, 1)) by {}
    }
    while h < n
        invariant
            data@.len() == n,
            orig.len() == n,
            is_pow2(n as int),
            is_pow2(h as int),
            1 <= h <= n,
            transformable(orig),
            blocks_transformed(data@, orig, h as int, n as int),
        decreases n - h,
    {
        proof {
            lemma_pow2_gap(h as int, n as int);
            lemma_pow2_doubles(h as int);
            lemma_pow2_divides(2 * h, n as int);
            lemma_small_mod(0, (2 * h) as nat);
        }
        let ghost prev = data@;
        let mut i: usize = 0;
        while i < n
            invariant
                data@.len() == n,
                orig.len() == n,
                prev.len() == n,
                is_pow2(n as int),
                is_pow2(2 * h),
                1 <= h,
                2 * h <= n,
                (n as int) % (2 * h) == 0,
                (i as int) % (2 * h) == 0,
                i <= n,
                transformable(orig),
                blocks_transformed(prev, orig, h as int, n as int),
                blocks_transformed(data@, orig, 2 * h, i as int),
                forall|k: int| i <= k < n ==> data@[k] == prev[k],
            decreases n - i,
        {
            proof {
                lemma_multiples_apart(i as int, n as int, 2 * h);
                lemma_block_transformable(orig, i as int, 2 * h);
                lemma_block_stage(prev, orig, i as int, h as int);
            }
            let ghost mid = data@;
            let mut j: usize = i;
            while j < i + h
                invariant
                    data@.len() == n,
                    prev.len() == n,
                    mid.len() == n,
                    1 <= h,
                    i + 2 * h <= n,
                    i <= j <= i + h,
                    exact_arithmetic::<T>(),
                    combinable(block(prev, i as int, h as int), block(prev, i + h, h as int)),
                    forall|k: int| 0 <= k < i ==> data@[k] == mid[k],
                    forall|k: int| i <= k < j ==> data@[k] == prev[k].add_spec(prev[k + h]),
                    forall|k: int| i + h <= k < j + h ==> data@[k] == prev[k - h].sub_spec(prev[k]),
                    forall|k: int| j <= k < i + h ==> data@[k] == prev[k],
                    forall|k: int| j + h <= k < n ==> data@[k] == prev[k],
                decreases i + h - j,
            {
                let x = data[j];
                let y = data[j + h];
                proof {
                    let a = block(prev, i as int, h as int);
                    let b = block(prev, i + h, h as int);
                    assert(a[j - i] == x);
                    assert(b[j - i] == y);
                }
                data[j] = x + y;
                data[j + h] = x - y;
                j += 1;
            }
            proof {
                let w = 2 * h;
                let a = block(prev, i as int, h as int);
                let b = block(prev, i + h, h as int);
                assert(block(data@, i as int, w) =~= combine(a, b));
                assert forall|start: int|
                    0 <= start && start + w <= i + w && start % w == 0 implies #[trigger] block(
                    data@,
                    start,
                    w,
                ) == transform(block(orig, start, w)) by {
                    if start != i {
                        lemma_multiples_apart(start, i as int, w);
                        assert(block(data@, start, w) =~= block(mid, start, w));
                    }
                }
                lemma_mod_self_0(w);
                lemma_multiples_add_sub(i as int, w, w);
            }
            i += 2 * h;
        }
        h *= 2;
    }
    proof {
        lemma_small_mod(0, n as nat);
        assert(block(data@, 0, n as int) =~= data@);
        assert(block(orig, 0, n as int) =~= orig);
    }
    Ok(())
}

} // verus!
