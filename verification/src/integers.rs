//! Element types whose arithmetic is that of the integers wherever it is
//! permitted: the signed machine integers.

use crate::model::exact_arithmetic;
use std::ops::Add;
use std::ops::Sub;
use vstd::prelude::*;
use vstd::std_specs::ops::AddSpec;
use vstd::std_specs::ops::SubSpec;

verus! {

/// An element type that stands for a range of the integers. Each element has
/// an integer value; the type permits a sum or a difference exactly when the
/// sum or difference of the values lies between `lowest()` and `highest()`,
/// and the result then has that value.
pub trait IntegerValued: Add<Output = Self> + Sub<Output = Self> + Sized {
    /// The integer that `self` stands for.
    spec fn value(self) -> int;

    /// The least value of the type.
    spec fn lowest() -> int;

    /// The greatest value of the type.
    spec fn highest() -> int;

    /// `+` and `-` compute what `add_spec` and `sub_spec` say.
    proof fn lemma_exact()
        ensures
            exact_arithmetic::<Self>(),
    ;

    /// A sum is permitted exactly when it is in range; its value is then the
    /// sum of the values.
    proof fn lemma_sum(a: Self, b: Self)
        ensures
            a.add_req(b) <==> Self::lowest() <= a.value() + b.value() <= Self::highest(),
            a.add_req(b) ==> a.add_spec(b).value() == a.value() + b.value(),
    ;

    /// A difference is permitted exactly when it is in range; its value is
    /// then the difference of the values.
    proof fn lemma_difference(a: Self, b: Self)
        ensures
            a.sub_req(b) <==> Self::lowest() <= a.value() - b.value() <= Self::highest(),
            a.sub_req(b) ==> a.sub_spec(b).value() == a.value() - b.value(),
    ;
}

impl IntegerValued for i8 {
    open spec fn value(self) -> int {
        self as int
    }

    open spec fn lowest() -> int {
        i8::MIN as int
    }

    open spec fn highest() -> int {
        i8::MAX as int
    }

    proof fn lemma_exact() {
    }

    proof fn lemma_sum(a: Self, b: Self) {
    }

    proof fn lemma_difference(a: Self, b: Self) {
    }
}

impl IntegerValued for i16 {
    open spec fn value(self) -> int {
        self as int
    }

    open spec fn lowest() -> int {
        i16::MIN as int
    }

    open spec fn highest() -> int {
        i16::MAX as int
    }

    proof fn lemma_exact() {
    }

    proof fn lemma_sum(a: Self, b: Self) {
    }

    proof fn lemma_difference(a: Self, b: Self) {
    }
}

impl IntegerValued for i32 {
    open spec fn value(self) -> int {
        self as int
    }

    open spec fn lowest() -> int {
        i32::MIN as int
    }

    open spec fn highest() -> int {
        i32::MAX as int
    }

    proof fn lemma_exact() {
    }

    proof fn lemma_sum(a: Self, b: Self) {
    }

    proof fn lemma_difference(a: Self, b: Self) {
    }
}

impl IntegerValued for i64 {
    open spec fn value(self) -> int {
        self as int
    }

    open spec fn lowest() -> int {
        i64::MIN as int
    }

    open spec fn highest() -> int {
        i64::MAX as int
    }

    proof fn lemma_exact() {
    }

    proof fn lemma_sum(a: Self, b: Self) {
    }

    proof fn lemma_difference(a: Self, b: Self) {
    }
}

impl IntegerValued for i128 {
    open spec fn value(self) -> int {
        self as int
    }

    open spec fn lowest() -> int {
        i128::MIN as int
    }

    open spec fn highest() -> int {
        i128::MAX as int
    }

    proof fn lemma_exact() {
    }

    proof fn lemma_sum(a: Self, b: Self) {
    }

    proof fn lemma_difference(a: Self, b: Self) {
    }
}

impl IntegerValued for isize {
    open spec fn value(self) -> int {
        self as int
    }

    open spec fn lowest() -> int {
        isize::MIN as int
    }

    open spec fn highest() -> int {
        isize::MAX as int
    }

    proof fn lemma_exact() {
    }

    proof fn lemma_sum(a: Self, b: Self) {
    }

    proof fn lemma_difference(a: Self, b: Self) {
    }
}

} // verus!
