//! Grows a file to a given size: by the platform's fast preallocation where it works, and by
//! writing zeros where it does not.
//!
//! The library performs no I/O. Each operation is a state machine whose state names the call
//! to make next; the caller makes it and hands its outcome back as an event, until the state
//! is `Finished`. What a whole run leaves in the file is proved in [`laws`], for every outcome
//! the calls may have.
//!
//! What a call may do to the file is an assumption. Each machine states it as its `outcome` (see
//! [`run::Machine`]): what `fallocate`, `SetFileValidData`, a seek, a write or a flush may return,
//! and what the file may be then. Nothing proves that the system keeps to it. The laws hold where
//! it does; the contracts of the `step` functions do not depend on it.
//!
//! - [`allocate`] decides between nothing, the fast path and the zero fill,
//! - [`zero_fill`] writes the zeros, one chunk at a time,
//! - [`unix`], [`windows`] and [`portable`] are the fast paths of the platforms,
//! - [`run`] is what a run of a machine on a file is,
//! - [`image`] is the model of a file in which the outcomes are stated,
//! - [`memory`] is a file in memory, which runs the machines to their end.

pub mod allocate;
pub mod error;
pub mod image;
pub mod laws;
pub mod memory;
pub mod portable;
pub mod run;
pub mod unix;
pub mod windows;
pub mod zero_fill;

pub use allocate::{Allocation, AllocationEvent, FileAlloc};
pub use error::AllocError;
pub use memory::{Disk, MemoryError, MemoryFile};
pub use zero_fill::{async_zero_fill, chunk_to_write, ZeroFill, ZeroFillEvent, CHUNK_SIZE};
