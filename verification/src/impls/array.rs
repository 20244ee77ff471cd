//! The capability for fixed-size arrays `[T; N]`.

use crate::engine::fwht_slice;
use crate::error::FwhtError;
use crate::traits::FWHT;
use std::ops::Add;
use std::ops::Sub;
use vstd::prelude::*;

verus! {

impl<T, const N: usize> FWHT<T> for [T; N] where T: Add<Output = T> + Sub<Output = T> + Copy {
    open spec fn elements(&self) -> Seq<T> {
        self@
    }

    fn fwht_mut(&mut self) -> (r: Result<(), FwhtError>) {
        fwht_slice(self)
    }

    fn fwht(&self) -> (r: Result<Self, FwhtError>) {
        let mut result = *self;
        result.fwht_mut()?;
        Ok(result)
    }
}

} // verus!
