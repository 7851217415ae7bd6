//! The fast path of Unix: one `fallocate` call, made on a thread that may block.

use crate::error::AllocError;
use crate::image;
use crate::image::FileImage;
use crate::run::Machine;
use vstd::prelude::*;

verus! {

/// The fast path needs no privilege here, so this is always `true`.
pub fn init_fast_alloc() -> (enabled: bool)
    ensures
        enabled == true,
{
    true
}

/// A preallocation in progress. The state is the call to make next.
#[derive(Debug, PartialEq, Eq)]
pub enum Preallocation<E> {
    /// Duplicate the file handle for the blocking task.
    CloneHandle { current_size: u64, size: u64 },
    /// In a blocking task, call `fallocate` without flags on the duplicate.
    Fallocate { offset: u64, len: u64 },
    /// Nothing is left to do.
    Finished(Result<bool, AllocError<E>>),
}

/// What came of the call that a [`Preallocation`] asked for.
#[derive(Debug, PartialEq, Eq)]
pub enum PreallocationEvent<E> {
    /// The handle was duplicated, or could not be.
    HandleCloned(Result<(), E>),
    /// `fallocate` returned.
    Fallocated(Result<(), E>),
    /// The blocking task did not run to its end.
    TaskFailed(E),
}

impl<E> Preallocation<E> {
    /// `event` answers the call that this state asks for, and the range to allocate does not end
    /// before it starts.
    pub open spec fn accepts(self, event: PreallocationEvent<E>) -> bool {
        match (self, event) {
            (
                Preallocation::CloneHandle { current_size, size },
                PreallocationEvent::HandleCloned(r),
            ) => r is Ok ==> current_size <= size,
            (Preallocation::Fallocate { .. }, PreallocationEvent::Fallocated(_)) => true,
            (Preallocation::Fallocate { .. }, PreallocationEvent::TaskFailed(_)) => true,
            _ => false,
        }
    }

    /// The state after `event`. What `fallocate` fails with is dropped: the outcome is then that
    /// the work was not done. Any other failure is an error.
    pub open spec fn after(self, event: PreallocationEvent<E>) -> Self {
        match (self, event) {
            (
                Preallocation::CloneHandle { current_size, size },
                PreallocationEvent::HandleCloned(Ok(_)),
            ) => Preallocation::Fallocate {
                offset: current_size,
                len: (size - current_size) as u64,
            },
            (_, PreallocationEvent::HandleCloned(Err(e))) => Preallocation::Finished(
                Err(AllocError::Os(e)),
            ),
            (Preallocation::Fallocate { .. }, PreallocationEvent::Fallocated(r)) =>
                Preallocation::Finished(Ok(r is Ok)),
            (_, PreallocationEvent::TaskFailed(e)) => Preallocation::Finished(
                Err(AllocError::Os(e)),
            ),
            _ => self,
        }
    }

    /// Goes on after the call that this state asked for.
    pub fn step(self, event: PreallocationEvent<E>) -> (next: Self)
        requires
            self.accepts(event),
        ensures
            next == self.after(event),
    {
        match (self, event) {
            (
                Preallocation::CloneHandle { current_size, size },
                PreallocationEvent::HandleCloned(Ok(_)),
            ) => Preallocation::Fallocate { offset: current_size, len: size - current_size },
            (_, PreallocationEvent::HandleCloned(Err(e))) => Preallocation::Finished(
                Err(AllocError::Os(e)),
            ),
            (Preallocation::Fallocate { .. }, PreallocationEvent::Fallocated(result)) =>
                match result {
                Ok(_) => Preallocation::Finished(Ok(true)),
                Err(_) => Preallocation::Finished(Ok(false)),
            },
            (_, PreallocationEvent::TaskFailed(e)) => Preallocation::Finished(
                Err(AllocError::Os(e)),
            ),
            (state, _) => state,
        }
    }
}

/// Starts the fast path that grows a file from `current_size` to `size`.
pub fn try_fast_preallocate<E>(current_size: u64, size: u64) -> (start: Preallocation<E>)
    ensures
        start == (Preallocation::<E>::CloneHandle { current_size, size }),
{
    Preallocation::CloneHandle { current_size, size }
}

impl<E> Machine for Preallocation<E> {
    type Event = PreallocationEvent<E>;

    open spec fn next(self, event: PreallocationEvent<E>) -> Self {
        self.after(event)
    }

    /// Duplicating the handle waits for what was accepted. `fallocate` makes the file reach the
    /// end of the range, with zeros; where it does not succeed, the file may have grown part of
    /// the way. It does not move the position.
    open spec fn outcome(
        self,
        zeroing: bool,
        event: PreallocationEvent<E>,
        before: FileImage,
        after: FileImage,
    ) -> bool {
        match (self, event) {
            (Preallocation::CloneHandle { .. }, PreallocationEvent::HandleCloned(_)) =>
                before.waits_as(after),
            (Preallocation::Fallocate { offset, len }, PreallocationEvent::Fallocated(Ok(_))) =>
                after == (FileImage {
                    contents: image::zero_extended(before.contents, (offset + len) as nat),
                    ..before
                }),
            (Preallocation::Fallocate { offset, len }, PreallocationEvent::Fallocated(Err(_)))
            | (Preallocation::Fallocate { offset, len }, PreallocationEvent::TaskFailed(_)) =>
                before.grows_as(after, (offset + len) as nat),
            _ => false,
        }
    }
}

} // verus!
