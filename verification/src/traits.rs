//! The capability that every supported container offers.

use crate::error::FwhtError;
use crate::length::valid_length;
use crate::model::transform;
use crate::model::transformable;
use std::ops::Add;
use std::ops::Sub;
use vstd::prelude::*;

verus! {

/// A container of `T` that can be transformed, in place or into a copy.
///
/// Both methods refuse a length that is neither zero nor a power of two, and
/// then leave the container as it was. Both ask of the caller what the engine
/// asks: that `T` permits the arithmetic of the transform (`transformable`).
pub trait FWHT<T: Add<Output = T> + Sub<Output = T>> {
    /// The elements of the container, in order.
    spec fn elements(&self) -> Seq<T>;

    /// Transforms the container's own elements.
    fn fwht_mut(&mut self) -> (r: Result<(), FwhtError>)
        requires
            valid_length(old(self).elements().len()) ==> transformable(old(self).elements()),
        ensures
            valid_length(old(self).elements().len()) ==> r is Ok && final(self).elements()
                == transform(old(self).elements()),
            !valid_length(old(self).elements().len()) ==> r == Err::<(), FwhtError>(
                FwhtError::InvalidLength,
            ) && final(self).elements() == old(self).elements(),
    ;

    /// Returns a transformed copy. The container itself is only read.
    fn fwht(&self) -> (r: Result<Self, FwhtError>) where Self: Sized
        requires
            valid_length(self.elements().len()) ==> transformable(self.elements()),
        ensures
            valid_length(self.elements().len()) ==> r is Ok && r->Ok_0.elements() == transform(
                self.elements(),
            ),
            !valid_length(self.elements().len()) ==> r is Err && r->Err_0
                == FwhtError::InvalidLength,
    ;
}

} // verus!
