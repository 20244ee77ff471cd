//! The two operations as free functions.

use crate::engine::fwht_slice;
use crate::error::FwhtError;
use crate::length::valid_length;
use crate::model::transform;
use crate::model::transformable;
use crate::traits::FWHT;
use std::ops::Add;
use std::ops::Sub;
use vstd::prelude::*;

verus! {

/// Transforms the elements of `data` in place.
pub fn fwht_mut<C, V>(data: &mut C) -> (r: Result<(), FwhtError>) where
    C: FWHT<V> + ?Sized,
    V: Add<Output = V> + Sub<Output = V> + Copy,

    requires
        valid_length(old(data).elements().len()) ==> transformable(old(data).elements()),
    ensures
        valid_length(old(data).elements().len()) ==> r is Ok && final(data).elements()
            == transform(old(data).elements()),
        !valid_length(old(data).elements().len()) ==> r == Err::<(), FwhtError>(
            FwhtError::InvalidLength,
        ) && final(data).elements() == old(data).elements(),
{
    data.fwht_mut()
}

/// Returns a transformed copy of `data`, which is only read.
pub fn fwht<C, V>(data: &C) -> (r: Result<C, FwhtError>) where
    C: FWHT<V>,
    V: Add<Output = V> + Sub<Output = V> + Copy,

    requires
        valid_length(data.elements().len()) ==> transformable(data.elements()),
    ensures
        valid_length(data.elements().len()) ==> r is Ok && r->Ok_0.elements() == transform(
            data.elements(),
        ),
        !valid_length(data.elements().len()) ==> r is Err && r->Err_0 == FwhtError::InvalidLength,
{
    data.fwht()
}

/// Transforms the contiguous run of a container's elements, where it has one.
///
/// `view` is what a container that may be strided hands out when asked for
/// its elements as one slice: `None` where they are not contiguous.
pub fn fwht_contiguous<T>(view: Option<&mut [T]>) -> (r: Result<(), FwhtError>) where
    T: Add<Output = T> + Sub<Output = T> + Copy,

    requires
        view matches Some(s) ==> (valid_length(s@.len()) ==> transformable(s@)),
    ensures
        view is None ==> r == Err::<(), FwhtError>(FwhtError::NotContiguous),
        view matches Some(s) ==> {
            &&& valid_length(s@.len()) ==> r is Ok && final(s)@ == transform(s@)
            &&& !valid_length(s@.len()) ==> r == Err::<(), FwhtError>(FwhtError::InvalidLength)
                && final(s)@ == s@
        },
{
    match view {
        Some(s) => fwht_slice(s),
        None => Err(FwhtError::NotContiguous),
    }
}

} // verus!
