//! Platforms without a fast path.

use crate::error::AllocError;
use vstd::prelude::*;

verus! {

/// There is no fast path to prepare, so this is always `false`.
pub fn init_fast_alloc() -> (enabled: bool)
    ensures
        enabled == false,
{
    false
}

/// There is no fast path to try, so the work is always left to the zero fill.
pub fn try_fast_preallocate<E>(current_size: u64, size: u64) -> (outcome: Result<
    bool,
    AllocError<E>,
>)
    ensures
        outcome == Ok::<bool, AllocError<E>>(false),
{
    Ok(false)
}

} // verus!
