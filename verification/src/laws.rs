//! What holds of whole runs, whatever the calls on the file come to.
//!
//! A run is made of steps in which each call does to the file what the `outcome` of its machine
//! allows. That the calls of the system do no more than this is assumed, except in `calls`, which
//! speaks of the calls alone.

pub mod allocation;
pub mod calls;
pub mod contents;
pub mod fast_path;
pub mod memory;
pub mod privilege;
pub mod zero_fill;
