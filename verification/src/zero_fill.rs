//! Filling a range of a file with zeros by writing them.

use crate::error::AllocError;
use crate::image::FileImage;
use crate::run::Machine;
use vstd::prelude::*;

verus! {

/// The most bytes that one write takes.
pub const CHUNK_SIZE: usize = 1024 * 1024;

/// The number of bytes that the next write takes when `remaining` bytes are left.
pub open spec fn chunk_len(remaining: nat) -> nat {
    if remaining < CHUNK_SIZE {
        remaining
    } else {
        CHUNK_SIZE as nat
    }
}

/// Computes how many bytes the next write takes when `remaining` bytes are left.
///
/// Where `usize` has 32 bits, a plain cast of a multiple of 4 GiB would give 0. A count that does
/// not fit in `usize` is taken as `usize::MAX` instead, so the write is still a full chunk.
pub fn chunk_to_write(remaining: u64) -> (n: usize)
    ensures
        n == chunk_len(remaining as nat),
        n <= remaining,
        n <= CHUNK_SIZE,
        n == remaining || n == CHUNK_SIZE,
        remaining > 0 ==> n > 0,
{
    let remaining: usize = match usize::try_from(remaining) {
        Ok(count) => count,
        Err(_) => usize::MAX,
    };
    CHUNK_SIZE.min(remaining)
}

/// A zero fill in progress. The state is the call to make next.
#[derive(Debug, PartialEq, Eq)]
pub enum ZeroFill<E> {
    /// Move the file position to `current_size`, counted from the start of the file.
    Seek { current_size: u64, target_size: u64 },
    /// Write `to_write` zero bytes at the file position, which is `current_size`.
    Write { current_size: u64, target_size: u64, to_write: usize },
    /// Wait until what was written has arrived in the file.
    Flush,
    /// Nothing is left to do.
    Finished(Result<(), AllocError<E>>),
}

/// What came of the call that a [`ZeroFill`] asked for.
#[derive(Debug, PartialEq, Eq)]
pub enum ZeroFillEvent<E> {
    /// The seek ended, at this position.
    Sought(Result<u64, E>),
    /// The write was accepted for this many bytes.
    Written(Result<usize, E>),
    /// The flush ended.
    Flushed(Result<(), E>),
}

impl<E> ZeroFill<E> {
    /// The state before the next write, or before the flush when no byte is left.
    pub open spec fn writing(current_size: u64, target_size: u64) -> Self {
        if current_size < target_size {
            ZeroFill::Write {
                current_size,
                target_size,
                to_write: chunk_len((target_size - current_size) as nat) as usize,
            }
        } else {
            ZeroFill::Flush
        }
    }

    /// A write has bytes left to write and takes one chunk of them.
    pub open spec fn wf(self) -> bool {
        self matches ZeroFill::Write { current_size, target_size, to_write } ==> {
            &&& current_size < target_size
            &&& 0 < to_write <= CHUNK_SIZE
            &&& to_write == chunk_len((target_size - current_size) as nat)
        }
    }

    /// `event` answers the call that this state asks for, and the bytes written do not exceed
    /// the largest file position.
    pub open spec fn accepts(self, event: ZeroFillEvent<E>) -> bool {
        match (self, event) {
            (ZeroFill::Seek { .. }, ZeroFillEvent::Sought(_)) => true,
            (ZeroFill::Write { current_size, .. }, ZeroFillEvent::Written(r)) => r matches Ok(n)
                ==> current_size + n <= u64::MAX,
            (ZeroFill::Flush, ZeroFillEvent::Flushed(_)) => true,
            _ => false,
        }
    }

    /// The state after `event`: an error ends the fill with that error, a write of no byte ends
    /// it with `WriteZero`, and otherwise the fill goes on to the next write or to the flush.
    pub open spec fn after(self, event: ZeroFillEvent<E>) -> Self {
        match (self, event) {
            (
                ZeroFill::Seek { current_size, target_size },
                ZeroFillEvent::Sought(Ok(_)),
            ) => ZeroFill::writing(current_size, target_size),
            (ZeroFill::Write { .. }, ZeroFillEvent::Written(Ok(0))) => ZeroFill::Finished(
                Err(AllocError::WriteZero),
            ),
            (
                ZeroFill::Write { current_size, target_size, .. },
                ZeroFillEvent::Written(Ok(n)),
            ) => ZeroFill::writing((current_size + n) as u64, target_size),
            (ZeroFill::Flush, ZeroFillEvent::Flushed(Ok(_))) => ZeroFill::Finished(Ok(())),
            (_, ZeroFillEvent::Sought(Err(e))) => ZeroFill::Finished(Err(AllocError::Os(e))),
            (_, ZeroFillEvent::Written(Err(e))) => ZeroFill::Finished(Err(AllocError::Os(e))),
            (_, ZeroFillEvent::Flushed(Err(e))) => ZeroFill::Finished(Err(AllocError::Os(e))),
            _ => self,
        }
    }

    /// Goes on after the call that this state asked for.
    pub fn step(self, event: ZeroFillEvent<E>) -> (next: Self)
        requires
            self.accepts(event),
        ensures
            next == self.after(event),
            next.wf(),
    {
        match (self, event) {
            (
                ZeroFill::Seek { current_size, target_size },
                ZeroFillEvent::Sought(Ok(_)),
            ) => write_next(current_size, target_size),
            (
                ZeroFill::Write { current_size, target_size, .. },
                ZeroFillEvent::Written(Ok(n)),
            ) => {
                if n == 0 {
                    return ZeroFill::Finished(Err(AllocError::WriteZero));
                }
                write_next(current_size + n as u64, target_size)
            },
            (ZeroFill::Flush, ZeroFillEvent::Flushed(Ok(_))) => ZeroFill::Finished(Ok(())),
            (_, ZeroFillEvent::Sought(Err(e))) => ZeroFill::Finished(Err(AllocError::Os(e))),
            (_, ZeroFillEvent::Written(Err(e))) => ZeroFill::Finished(Err(AllocError::Os(e))),
            (_, ZeroFillEvent::Flushed(Err(e))) => ZeroFill::Finished(Err(AllocError::Os(e))),
            (state, _) => state,
        }
    }
}

impl<E> Machine for ZeroFill<E> {
    type Event = ZeroFillEvent<E>;

    open spec fn next(self, event: ZeroFillEvent<E>) -> Self {
        self.after(event)
    }

    /// A seek waits for what was accepted, of which some may be lost. A write is accepted for at
    /// most the bytes that were offered, and while it is, some of the bytes accepted so far
    /// arrive. A flush that succeeds leaves none of them behind. After an error any part of what
    /// had been accepted has arrived, and the rest is lost.
    open spec fn outcome(
        self,
        zeroing: bool,
        event: ZeroFillEvent<E>,
        before: FileImage,
        after: FileImage,
    ) -> bool {
        match (self, event) {
            (ZeroFill::Seek { current_size, .. }, ZeroFillEvent::Sought(Ok(_))) => {
                &&& before.settles_as(after)
                &&& after.position == current_size
            },
            (ZeroFill::Write { to_write, .. }, ZeroFillEvent::Written(Ok(n))) => {
                &&& n <= to_write
                &&& after.buffered <= before.buffered + n
                &&& after == before.accepting(n as nat).settled_to(after.buffered)
            },
            (ZeroFill::Flush, ZeroFillEvent::Flushed(Ok(_))) => after == before.settled_to(0),
            (ZeroFill::Seek { .. }, ZeroFillEvent::Sought(Err(_)))
            | (ZeroFill::Write { .. }, ZeroFillEvent::Written(Err(_)))
            | (ZeroFill::Flush, ZeroFillEvent::Flushed(Err(_))) => before.settles_as(after),
            _ => false,
        }
    }
}

/// The head of the write loop: the next chunk, or the flush.
fn write_next<E>(current_size: u64, target_size: u64) -> (next: ZeroFill<E>)
    ensures
        next == ZeroFill::<E>::writing(current_size, target_size),
        next.wf(),
{
    if current_size < target_size {
        let remaining: u64 = target_size - current_size;
        let to_write: usize = chunk_to_write(remaining);
        ZeroFill::Write { current_size, target_size, to_write }
    } else {
        ZeroFill::Flush
    }
}

/// Starts filling a file with zeros from `current_size` to `target_size`. The calls that follow
/// may be made asynchronously, one after the other.
pub fn async_zero_fill<E>(current_size: u64, target_size: u64) -> (start: ZeroFill<E>)
    ensures
        start == (ZeroFill::<E>::Seek { current_size, target_size }),
        start.wf(),
{
    ZeroFill::Seek { current_size, target_size }
}

} // verus!
