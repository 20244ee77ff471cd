//! The fast Walsh-Hadamard transform, in place, on sequences whose length is
//! a power of two.

pub mod blocks;
pub mod engine;
pub mod error;
pub mod functions;
pub mod impls;
pub mod integers;
pub mod involution;
pub mod length;
pub mod model;
pub mod signs;
pub mod traits;

pub use engine::fwht_slice;
pub use error::FwhtError;
pub use functions::fwht;
pub use functions::fwht_contiguous;
pub use functions::fwht_mut;
pub use length::is_valid_fwht_length;
pub use length::next_power_of_two;
pub use traits::FWHT;
