//! The capability for `Vec<T>`.

use crate::engine::fwht_slice;
use crate::error::FwhtError;
use crate::traits::FWHT;
use std::ops::Add;
use std::ops::Sub;
use vstd::prelude::*;
use vstd::slice::slice_to_vec;

verus! {

impl<T> FWHT<T> for Vec<T> where T: Add<Output = T> + Sub<Output = T> + Copy {
    open spec fn elements(&self) -> Seq<T> {
        self@
    }

    fn fwht_mut(&mut self) -> (r: Result<(), FwhtError>) {
        fwht_slice(self.as_mut_slice())
    }

    fn fwht(&self) -> (r: Result<Self, FwhtError>) {
        let mut result = slice_to_vec(self.as_slice());
        result.fwht_mut()?;
        Ok(result)
    }
}

} // verus!
