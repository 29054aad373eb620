//! Tools for talking to the bootloader of a Tock board and for reading
//! applications packaged in the Tock Binary Format.

use vstd::prelude::*;

pub mod bootloader;
pub mod codec;
pub mod errors;
pub mod interfaces;
pub mod message;
pub mod tbf;
pub mod terminal;
pub mod utf8;

verus! {

/// Returns the sum of the two arguments.
pub fn add(left: usize, right: usize) -> (sum: usize)
    requires
        left + right <= usize::MAX,
    ensures
        sum == left + right,
{
    left + right
}

} // verus!
