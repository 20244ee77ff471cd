//! The mathematical model of the transform.
//!
//! The Walsh-Hadamard transform of a sequence of length `2m` is built from the
//! transforms `a` and `b` of its two halves: the first half of the result is
//! `a + b`, the second half is `a - b`, element by element. A sequence of
//! length 0 or 1 is its own transform.

use std::ops::Add;
use std::ops::Sub;
use vstd::prelude::*;
use vstd::std_specs::ops::AddSpec;
use vstd::std_specs::ops::SubSpec;

verus! {

/// Whether `+` and `-` on `T` compute what `add_spec` and `sub_spec` say.
pub open spec fn exact_arithmetic<T: Add<Output = T> + Sub<Output = T>>() -> bool {
    T::obeys_add_spec() && T::obeys_sub_spec()
}

/// The sums `a[k] + b[k]` followed by the differences `a[k] - b[k]`.
pub open spec fn combine<T: Add<Output = T> + Sub<Output = T>>(a: Seq<T>, b: Seq<T>) -> Seq<T> {
    Seq::new(
        a.len() + b.len(),
        |k: int|
            if k < a.len() {
                a[k].add_spec(b[k])
            } else {
                a[k - a.len()].sub_spec(b[k - a.len()])
            },
    )
}

/// Whether `T` permits every sum and difference that `combine(a, b)` takes.
/// For the machine integers this says that none of them overflows.
pub open spec fn combinable<T: Add<Output = T> + Sub<Output = T>>(a: Seq<T>, b: Seq<T>) -> bool {
    forall|k: int| 0 <= k < a.len() ==> (#[trigger] a[k]).add_req(b[k]) && a[k].sub_req(b[k])
}

/// The Walsh-Hadamard transform of `s` in the arithmetic of `T`, for `s` of a
/// valid length.
pub open spec fn transform<T: Add<Output = T> + Sub<Output = T>>(s: Seq<T>) -> Seq<T>
    decreases s.len(),
{
    if s.len() < 2 {
        s
    } else {
        let half = s.len() as int / 2;
        combine(transform(s.subrange(0, half)), transform(s.subrange(half, s.len() as int)))
    }
}

/// Whether the transform of `s` can be computed in `T`: the arithmetic of `T`
/// is exact, and it permits every sum and difference that `transform(s)` is
/// made of. Sequences of fewer than two elements need no arithmetic at all.
pub open spec fn transformable<T: Add<Output = T> + Sub<Output = T>>(s: Seq<T>) -> bool
    decreases s.len(),
{
    s.len() >= 2 ==> {
        let half = s.len() as int / 2;
        let lo = s.subrange(0, half);
        let hi = s.subrange(half, s.len() as int);
        &&& exact_arithmetic::<T>()
        &&& transformable(lo)
        &&& transformable(hi)
        &&& combinable(transform(lo), transform(hi))
    }
}

/// The transform keeps the length.
pub proof fn lemma_transform_len<T: Add<Output = T> + Sub<Output = T>>(s: Seq<T>)
    ensures
        transform(s).len() == s.len(),
    decreases s.len(),
{
    if s.len() >= 2 {
        let half = s.len() as int / 2;
        lemma_transform_len(s.subrange(0, half));
        lemma_transform_len(s.subrange(half, s.len() as int));
    }
}

} // verus!
