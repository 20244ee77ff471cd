//! The transform as a matrix of signs: entry `k` of the transform is the sum
//! of all elements, each taken with the sign `+1` or `-1` that the Hadamard
//! matrix has in row `k`.

use crate::integers::IntegerValued;
use crate::involution::hadamard;
use crate::involution::lemma_transform_values;
use crate::involution::values;
use crate::length::lemma_pow2_halves;
use crate::length::lemma_pow2_positive;
use crate::length::valid_length;
use crate::model::lemma_transform_len;
use crate::model::transform;
use crate::model::transformable;
use vstd::arithmetic::power2::is_pow2;
use vstd::prelude::*;

verus! {

/// Whether the binary digits at which both `j` and `k` have a one are odd in
/// number. The Hadamard matrix has `-1` at row `k`, column `j` exactly then.
pub open spec fn odd_overlap(j: nat, k: nat) -> bool
    decreases j,
{
    if j == 0 {
        false
    } else {
        (j % 2 == 1 && k % 2 == 1) != odd_overlap(j / 2, k / 2)
    }
}

/// Element `j` of `s` with the sign of row `k`, column `j` of the matrix.
pub open spec fn signed(s: Seq<int>, k: nat, j: nat) -> int {
    if odd_overlap(j, k) {
        -s[j as int]
    } else {
        s[j as int]
    }
}

/// The sum of the first `count` elements of `s`, each with its sign in row `k`.
pub open spec fn signed_sum(s: Seq<int>, k: nat, count: nat) -> int
    decreases count,
{
    if count == 0 {
        0
    } else {
        signed_sum(s, k, (count - 1) as nat) + signed(s, k, (count - 1) as nat)
    }
}

/// Adding a power of two `m` to a number below `m` sets one more binary digit.
/// Set in one of `j` and `k` it leaves the overlap as it is; set in both it
/// makes an odd overlap even and an even one odd.
pub proof fn lemma_overlap_top_digit(m: nat, j: nat, k: nat)
    requires
        is_pow2(m as int),
        j < m,
        k < m,
    ensures
        odd_overlap(j + m, k) == odd_overlap(j, k),
        odd_overlap(j, k + m) == odd_overlap(j, k),
        odd_overlap(j + m, k + m) == !odd_overlap(j, k),
    decreases m,
{
    if m >= 2 {
        lemma_pow2_halves(m as int);
        lemma_overlap_top_digit(m / 2, j / 2, k / 2);
        assert((j + m) / 2 == j / 2 + m / 2);
        assert((k + m) / 2 == k / 2 + m / 2);
    } else {
        lemma_pow2_positive(m as int);
        assert(odd_overlap(1, 0) == ((1nat % 2 == 1 && 0nat % 2 == 1) != odd_overlap(0, 0)));
        assert(odd_overlap(1, 1) == ((1nat % 2 == 1 && 1nat % 2 == 1) != odd_overlap(0, 0)));
    }
}

/// The signed sum over a sequence of length `2 * m`, row by row, from the
/// signed sums over its halves: in the rows below `m` the halves add, in the
/// rows from `m` on the second half is subtracted.
proof fn lemma_signed_sum_halves(s: Seq<int>, k: nat, m: nat, count: nat)
    requires
        is_pow2(m as int),
        s.len() == 2 * m,
        k < 2 * m,
        count <= m,
    ensures
        signed_sum(s, k, count) == signed_sum(
            s.subrange(0, m as int),
            if k < m {
                k
            } else {
                (k - m) as nat
            },
            count,
        ),
        signed_sum(s, k, m + count) == signed_sum(s, k, m) + if k < m {
            signed_sum(s.subrange(m as int, s.len() as int), k, count)
        } else {
            -signed_sum(s.subrange(m as int, s.len() as int), (k - m) as nat, count)
        },
    decreases count,
{
    if count > 0 {
        let j = (count - 1) as nat;
        let row = if k < m {
            k
        } else {
            (k - m) as nat
        };
        lemma_signed_sum_halves(s, k, m, j);
        lemma_overlap_top_digit(m, j, row);
        assert(s.subrange(0, m as int)[j as int] == s[j as int]);
        assert(s.subrange(m as int, s.len() as int)[j as int] == s[(m + j) as int]);
        assert(signed_sum(s, k, m + count) == signed_sum(s, k, (m + count - 1) as nat) + signed(
            s,
            k,
            (m + count - 1) as nat,
        ));
    }
}

/// Entry `k` of the integer transform is the sum of all elements with the
/// signs of row `k` of the Hadamard matrix.
pub proof fn lemma_hadamard_entry(s: Seq<int>, k: nat)
    requires
        valid_length(s.len()),
        k < s.len(),
    ensures
        hadamard(s)[k as int] == signed_sum(s, k, s.len()),
    decreases s.len(),
{
    let n = s.len();
    if n == 1 {
        assert(signed_sum(s, k, 1) == signed_sum(s, k, 0) + signed(s, k, 0));
    } else {
        lemma_pow2_halves(n as int);
        let m = n / 2;
        let lo = s.subrange(0, m as int);
        let hi = s.subrange(m as int, n as int);
        let row = if k < m {
            k
        } else {
            (k - m) as nat
        };
        lemma_hadamard_entry(lo, row);
        lemma_hadamard_entry(hi, row);
        lemma_signed_sum_halves(s, k, m, m);
    }
}

/// Entry `k` of a transform computed in `T` has as its value the sum of the
/// values of all elements with the signs of row `k` of the Hadamard matrix.
pub proof fn lemma_transform_entry<T: IntegerValued>(s: Seq<T>, k: nat)
    requires
        valid_length(s.len()),
        transformable(s),
        k < s.len(),
    ensures
        transform(s)[k as int].value() == signed_sum(values(s), k, s.len()),
{
    lemma_transform_len(s);
    lemma_transform_values(s);
    lemma_hadamard_entry(values(s), k);
    assert(values(transform(s))[k as int] == transform(s)[k as int].value());
}

} // verus!
