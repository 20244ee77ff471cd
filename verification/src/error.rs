//! The ways a transform can be refused.

use vstd::prelude::*;

verus! {

/// Why a transform was refused. Nothing has been written when one is returned.
#[derive(Clone, Copy, Debug, PartialEq, Eq, Structural)]
pub enum FwhtError {
    /// The length is neither zero nor a power of two.
    InvalidLength,
    /// The elements do not lie in one contiguous run of memory.
    NotContiguous,
}

impl FwhtError {
    /// The text of `message`, as a sequence of characters.
    pub open spec fn message_text(&self) -> Seq<char> {
        match self {
            FwhtError::InvalidLength => "Input length must be a power of 2"@,
            FwhtError::NotContiguous => "Array must be contiguous for FWHT"@,
        }
    }

    /// A sentence that says what was wrong with the input.
    pub fn message(&self) -> (text: &'static str)
        ensures
            text@ == self.message_text(),
    {
        match self {
            FwhtError::InvalidLength => "Input length must be a power of 2",
            FwhtError::NotContiguous => "Array must be contiguous for FWHT",
        }
    }
}

} // verus!
