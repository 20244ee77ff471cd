//! The capability for borrowed slices `[T]`: a window into larger storage.

use crate::engine::fwht_slice;
use crate::error::FwhtError;
use crate::traits::FWHT;
use std::ops::Add;
use std::ops::Sub;
use vstd::prelude::*;

verus! {

impl<T> FWHT<T> for [T] where T: Add<Output = T> + Sub<Output = T> + Copy {
    open spec fn elements(&self) -> Seq<T> {
        self@
    }

    fn fwht_mut(&mut self) -> (r: Result<(), FwhtError>) {
        fwht_slice(self)
    }
}

} // verus!
