//! The capability for each container shape: growable vectors, fixed-size
//! arrays and borrowed slices. All of them run the one engine.

pub mod array;
pub mod slice;
pub mod vec;
