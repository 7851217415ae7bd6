//! The errors of an allocation.

use vstd::prelude::*;

verus! {

/// Why an allocation failed. `E` is the error type of the calls that the caller makes.
#[derive(Debug, PartialEq, Eq)]
pub enum AllocError<E> {
    /// A call failed, with this error.
    Os(E),
    /// A write of one or more bytes was accepted for none of them.
    WriteZero,
    /// The size cannot be expressed as a signed 64-bit file length.
    FileTooLarge,
}

} // verus!
