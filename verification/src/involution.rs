//! The transform over the integers, and the law that it undoes itself up to
//! a factor of the length.

use crate::integers::IntegerValued;
use crate::length::lemma_pow2_halves;
use crate::length::valid_length;
use crate::model::transform;
use crate::model::transformable;
use crate::model::lemma_transform_len;
use vstd::prelude::*;
use vstd::std_specs::ops::AddSpec;
use vstd::std_specs::ops::SubSpec;

verus! {

/// The Walsh-Hadamard transform of a sequence of integers of a valid length:
/// `transform`, in the arithmetic of the integers.
pub open spec fn hadamard(s: Seq<int>) -> Seq<int>
    decreases s.len(),
{
    if s.len() < 2 {
        s
    } else {
        let half = s.len() as int / 2;
        let a = hadamard(s.subrange(0, half));
        let b = hadamard(s.subrange(half, s.len() as int));
        Seq::new(
            s.len(),
            |k: int|
                if k < half {
                    a[k] + b[k]
                } else {
                    a[k - half] - b[k - half]
                },
        )
    }
}

/// The sums `a[k] + b[k]`.
pub open spec fn sums(a: Seq<int>, b: Seq<int>) -> Seq<int> {
    Seq::new(a.len(), |k: int| a[k] + b[k])
}

/// The differences `a[k] - b[k]`.
pub open spec fn differences(a: Seq<int>, b: Seq<int>) -> Seq<int> {
    Seq::new(a.len(), |k: int| a[k] - b[k])
}

/// The products `factor * s[k]`.
pub open spec fn scaled(factor: int, s: Seq<int>) -> Seq<int> {
    Seq::new(s.len(), |k: int| factor * s[k])
}

/// The integer values of the elements of `s`.
pub open spec fn values<T: IntegerValued>(s: Seq<T>) -> Seq<int> {
    Seq::new(s.len(), |k: int| s[k].value())
}

/// The integer transform keeps the length.
pub proof fn lemma_hadamard_len(s: Seq<int>)
    ensures
        hadamard(s).len() == s.len(),
    decreases s.len(),
{
}

/// The integer transform is additive: it maps sums to sums and differences
/// to differences.
pub proof fn lemma_hadamard_additive(a: Seq<int>, b: Seq<int>)
    requires
        valid_length(a.len()),
        a.len() == b.len(),
    ensures
        hadamard(sums(a, b)) == sums(hadamard(a), hadamard(b)),
        hadamard(differences(a, b)) == differences(hadamard(a), hadamard(b)),
    decreases a.len(),
{
    let n = a.len() as int;
    lemma_hadamard_len(a);
    lemma_hadamard_len(b);
    if n < 2 {
        assert(sums(hadamard(a), hadamard(b)) =~= sums(a, b));
        assert(differences(hadamard(a), hadamard(b)) =~= differences(a, b));
    } else {
        lemma_pow2_halves(n);
        let half = n / 2;
        let a_lo = a.subrange(0, half);
        let a_hi = a.subrange(half, n);
        let b_lo = b.subrange(0, half);
        let b_hi = b.subrange(half, n);
        lemma_hadamard_additive(a_lo, b_lo);
        lemma_hadamard_additive(a_hi, b_hi);
        lemma_hadamard_len(a_lo);
        lemma_hadamard_len(a_hi);
        lemma_hadamard_len(b_lo);
        lemma_hadamard_len(b_hi);
        assert(sums(a, b).subrange(0, half) =~= sums(a_lo, b_lo));
        assert(sums(a, b).subrange(half, n) =~= sums(a_hi, b_hi));
        assert(differences(a, b).subrange(0, half) =~= differences(a_lo, b_lo));
        assert(differences(a, b).subrange(half, n) =~= differences(a_hi, b_hi));
        assert(hadamard(sums(a, b)) =~= sums(hadamard(a), hadamard(b)));
        assert(hadamard(differences(a, b)) =~= differences(hadamard(a), hadamard(b)));
    }
}

/// Over the integers, transforming twice multiplies every element by the
/// length.
pub proof fn lemma_hadamard_twice(s: Seq<int>)
    requires
        valid_length(s.len()),
    ensures
        hadamard(hadamard(s)) == scaled(s.len() as int, s),
    decreases s.len(),
{
    let n = s.len() as int;
    if n < 2 {
        assert(scaled(n, s) =~= s) by {
            if n == 1 {
                assert(scaled(n, s)[0] == s[0]);
            }
        }
    } else {
        lemma_pow2_halves(n);
        let half = n / 2;
        let lo = s.subrange(0, half);
        let hi = s.subrange(half, n);
        let a = hadamard(lo);
        let b = hadamard(hi);
        lemma_hadamard_len(lo);
        lemma_hadamard_len(hi);
        lemma_hadamard_len(s);
        lemma_hadamard_twice(lo);
        lemma_hadamard_twice(hi);
        lemma_hadamard_additive(a, b);
        let once = hadamard(s);
        assert(once.subrange(0, half) =~= sums(a, b));
        assert(once.subrange(half, n) =~= differences(a, b));
        lemma_hadamard_len(once);
        assert forall|k: int| 0 <= k < n implies hadamard(once)[k] == scaled(n, s)[k] by {
            if k < half {
                assert(half * lo[k] + half * lo[k] == n * lo[k]) by (nonlinear_arith)
                    requires
                        n == half + half,
                ;
            } else {
                assert(half * hi[k - half] + half * hi[k - half] == n * hi[k - half])
                    by (nonlinear_arith)
                    requires
                        n == half + half,
                ;
            }
        }
        assert(hadamard(once) =~= scaled(n, s));
    }
}

/// Where the transform of `s` can be computed in `T`, its values are the
/// integer transform of the values of `s`.
pub proof fn lemma_transform_values<T: IntegerValued>(s: Seq<T>)
    requires
        valid_length(s.len()),
        transformable(s),
    ensures
        values(transform(s)) == hadamard(values(s)),
    decreases s.len(),
{
    let n = s.len() as int;
    if n >= 2 {
        lemma_pow2_halves(n);
        let half = n / 2;
        let lo = s.subrange(0, half);
        let hi = s.subrange(half, n);
        lemma_transform_values(lo);
        lemma_transform_values(hi);
        lemma_transform_len(lo);
        lemma_transform_len(hi);
        lemma_transform_len(s);
        let a = transform(lo);
        let b = transform(hi);
        assert(values(s).subrange(0, half) =~= values(lo));
        assert(values(s).subrange(half, n) =~= values(hi));
        lemma_hadamard_len(values(s));
        assert forall|k: int| 0 <= k < n implies values(transform(s))[k] == hadamard(
            values(s),
        )[k] by {
            if k < half {
                T::lemma_sum(a[k], b[k]);
                assert(a[k].add_req(b[k]));
                assert(values(a)[k] == a[k].value());
                assert(values(b)[k] == b[k].value());
            } else {
                T::lemma_difference(a[k - half], b[k - half]);
                assert(a[k - half].sub_req(b[k - half]));
                assert(values(a)[k - half] == a[k - half].value());
                assert(values(b)[k - half] == b[k - half].value());
            }
        }
        assert(values(transform(s)) =~= hadamard(values(s)));
    }
}

/// Transforming twice, without rescaling, multiplies every element by the
/// length: the transform is its own inverse up to that factor.
pub proof fn lemma_transform_twice<T: IntegerValued>(s: Seq<T>)
    requires
        valid_length(s.len()),
        transformable(s),
        transformable(transform(s)),
    ensures
        transform(transform(s)).len() == s.len(),
        forall|k: int|
            0 <= k < s.len() ==> (#[trigger] transform(transform(s))[k]).value() == s.len()
                * s[k].value(),
{
    lemma_transform_len(s);
    lemma_transform_len(transform(s));
    lemma_transform_values(s);
    lemma_transform_values(transform(s));
    lemma_hadamard_twice(values(s));
    assert forall|k: int| 0 <= k < s.len() implies (#[trigger] transform(
        transform(s),
    )[k]).value() == s.len() * s[k].value() by {
        assert(values(transform(transform(s)))[k] == scaled(s.len() as int, values(s))[k]);
    }
}

/// Small entries can be transformed. Where every value of `s` lies within
/// `bound` of zero, and `T` has room for the length times `bound`, the
/// transform of `s` can be computed in `T`, and its values lie within the
/// length times `bound` of zero.
pub proof fn lemma_transformable_within<T: IntegerValued>(s: Seq<T>, bound: int)
    requires
        valid_length(s.len()),
        forall|k: int| 0 <= k < s.len() ==> -bound <= (#[trigger] s[k]).value() <= bound,
        T::lowest() <= -(s.len() * bound),
        s.len() * bound <= T::highest(),
    ensures
        transformable(s),
        forall|k: int|
            0 <= k < s.len() ==> -(s.len() * bound) <= (#[trigger] transform(s)[k]).value()
                <= s.len() * bound,
    decreases s.len(),
{
    let n = s.len() as int;
    if n == 1 {
        assert(n * bound == bound) by (nonlinear_arith)
            requires
                n == 1,
        ;
    } else if n >= 2 {
        lemma_pow2_halves(n);
        let half = n / 2;
        let lo = s.subrange(0, half);
        let hi = s.subrange(half, n);
        assert(bound >= 0) by {
            assert(-bound <= s[0].value() <= bound);
        }
        assert(half * bound + half * bound == n * bound && half * bound >= 0)
            by (nonlinear_arith)
            requires
                n == half + half,
                half >= 1,
                bound >= 0,
        ;
        assert forall|k: int| 0 <= k < half implies -bound <= (#[trigger] lo[k]).value()
            <= bound by {
            assert(lo[k] == s[k]);
        }
        assert forall|k: int| 0 <= k < half implies -bound <= (#[trigger] hi[k]).value()
            <= bound by {
            assert(hi[k] == s[k + half]);
        }
        lemma_transformable_within(lo, bound);
        lemma_transformable_within(hi, bound);
        lemma_transform_len(lo);
        lemma_transform_len(hi);
        let a = transform(lo);
        let b = transform(hi);
        T::lemma_exact();
        assert forall|k: int| 0 <= k < a.len() implies (#[trigger] a[k]).add_req(b[k])
            && a[k].sub_req(b[k]) by {
            T::lemma_sum(a[k], b[k]);
            T::lemma_difference(a[k], b[k]);
            assert(-(half * bound) <= b[k].value() <= half * bound);
        }
        assert forall|k: int| 0 <= k < n implies -(n * bound) <= (#[trigger] transform(
            s,
        )[k]).value() <= n * bound by {
            if k < half {
                T::lemma_sum(a[k], b[k]);
                assert(-(half * bound) <= b[k].value() <= half * bound);
            } else {
                T::lemma_difference(a[k - half], b[k - half]);
                assert(-(half * bound) <= b[k - half].value() <= half * bound);
            }
        }
    }
}

} // verus!
