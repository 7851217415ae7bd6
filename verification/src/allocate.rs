//! Growing a file to a given size.

use crate::error::AllocError;
use crate::image;
use crate::image::FileImage;
use crate::run::Machine;
use crate::zero_fill::{async_zero_fill, ZeroFill, ZeroFillEvent};
use vstd::prelude::*;

verus! {

/// `after` is the file `before`, which had nothing in flight, once it has been grown to `size`
/// bytes.
pub open spec fn is_allocated_image(
    zeroing: bool,
    before: FileImage,
    after: FileImage,
    size: nat,
) -> bool {
    let kept = image::kept_len(before.contents.len(), before);
    &&& before.contents.take(kept as int).is_prefix_of(after.contents)
    &&& after.contents.len() == if before.contents.len() < size {
        size
    } else {
        before.contents.len()
    }
    &&& after.position == before.position || after.position == size
    &&& after.buffered == 0
    &&& zeroing || before.is_written() ==> {
        &&& image::is_grown(zeroing, before.contents, after.contents, size)
        &&& zeroing || after.is_written()
    }
}

/// A file that can be grown to a given size.
pub trait FileAlloc {
    /// What the calls on the file fail with.
    type OsError;

    /// The file as it is now.
    spec fn image(&self) -> FileImage;

    /// Whether the space that the fast path of this file adds reads as zeros.
    spec fn zeroing(&self) -> bool;

    /// Makes the file at least `size` bytes long. What is in it stays there, and a file that is
    /// long enough stays as it is. The position stays where it was, or is the new end of the file.
    ///
    /// Where the fast path adds other bytes than zeros, only what has been written is sure to
    /// stay.
    fn allocate(&mut self, size: u64) -> (result: Result<(), AllocError<Self::OsError>>)
        ensures
            final(self).zeroing() == old(self).zeroing(),
            old(self).image().buffered == 0 ==> match result {
                Ok(_) => is_allocated_image(
                    old(self).zeroing(),
                    old(self).image(),
                    final(self).image(),
                    size as nat,
                ),
                Err(_) => image::is_zero_extension(
                    old(self).image().contents,
                    final(self).image().contents,
                    size as nat,
                ),
            },
            old(self).image().contents.len() >= size ==> {
                &&& old(self).image().arrives_as(final(self).image())
                &&& old(self).image().buffered == 0 ==> final(self).image() == old(self).image()
            },
    ;
}

/// An allocation in progress. The state is the call to make next.
#[derive(Debug, PartialEq, Eq)]
pub enum Allocation<E> {
    /// Read the length of the file.
    ReadLength { size: u64 },
    /// Try the fast path of the platform from `current_size` to `size`.
    TryFastPreallocate { current_size: u64, size: u64 },
    /// Make the call that this zero fill asks for.
    ZeroFill(ZeroFill<E>),
    /// Nothing is left to do.
    Finished(Result<(), AllocError<E>>),
}

/// What came of the call that an [`Allocation`] asked for.
#[derive(Debug, PartialEq, Eq)]
pub enum AllocationEvent<E> {
    /// The length of the file.
    LengthRead(Result<u64, E>),
    /// The fast path ended: it did the work, it did not, or it failed.
    Preallocated(Result<bool, AllocError<E>>),
    /// A call of the zero fill ended.
    ZeroFill(ZeroFillEvent<E>),
}

impl<E> Allocation<E> {
    /// A zero fill as a state of the allocation: its end is the end of the allocation.
    pub open spec fn filling(fill: ZeroFill<E>) -> Self {
        match fill {
            ZeroFill::Finished(result) => Allocation::Finished(result),
            fill => Allocation::ZeroFill(fill),
        }
    }

    /// The fast path is tried for a file that is too short only, and a zero fill that has ended
    /// is no state of its own.
    pub open spec fn wf(self) -> bool {
        match self {
            Allocation::TryFastPreallocate { current_size, size } => current_size < size,
            Allocation::ZeroFill(fill) => fill.wf() && !(fill is Finished),
            _ => true,
        }
    }

    /// `event` answers the call that this state asks for.
    pub open spec fn accepts(self, event: AllocationEvent<E>) -> bool {
        match (self, event) {
            (Allocation::ReadLength { .. }, AllocationEvent::LengthRead(_)) => true,
            (Allocation::TryFastPreallocate { .. }, AllocationEvent::Preallocated(_)) => true,
            (Allocation::ZeroFill(fill), AllocationEvent::ZeroFill(event)) => fill.accepts(event),
            _ => false,
        }
    }

    /// The state after `event`. A file that is long enough is left alone. A fast path that did
    /// not do the work, for whatever reason, is followed by the zero fill.
    pub open spec fn after(self, event: AllocationEvent<E>) -> Self {
        match (self, event) {
            (Allocation::ReadLength { .. }, AllocationEvent::LengthRead(Err(e))) =>
                Allocation::Finished(Err(AllocError::Os(e))),
            (Allocation::ReadLength { size }, AllocationEvent::LengthRead(Ok(current_size))) =>
                if current_size >= size {
                    Allocation::Finished(Ok(()))
                } else {
                    Allocation::TryFastPreallocate { current_size, size }
                },
            (Allocation::TryFastPreallocate { .. }, AllocationEvent::Preallocated(Ok(true))) =>
                Allocation::Finished(Ok(())),
            (
                Allocation::TryFastPreallocate { current_size, size },
                AllocationEvent::Preallocated(_),
            ) => Allocation::ZeroFill(ZeroFill::Seek { current_size, target_size: size }),
            (Allocation::ZeroFill(fill), AllocationEvent::ZeroFill(event)) => Self::filling(
                fill.after(event),
            ),
            _ => self,
        }
    }

    /// Starts growing a file to at least `size` bytes.
    pub fn start(size: u64) -> (start: Self)
        ensures
            start == (Allocation::<E>::ReadLength { size }),
            start.wf(),
    {
        Allocation::ReadLength { size }
    }

    /// Goes on after the call that this state asked for.
    pub fn step(self, event: AllocationEvent<E>) -> (next: Self)
        requires
            self.accepts(event),
        ensures
            next == self.after(event),
            next.wf(),
    {
        match (self, event) {
            (Allocation::ReadLength { size }, AllocationEvent::LengthRead(length)) => match length {
                Ok(current_size) => if current_size >= size {
                    Allocation::Finished(Ok(()))
                } else {
                    Allocation::TryFastPreallocate { current_size, size }
                },
                Err(e) => Allocation::Finished(Err(AllocError::Os(e))),
            },
            (
                Allocation::TryFastPreallocate { current_size, size },
                AllocationEvent::Preallocated(outcome),
            ) => if matches!(outcome, Ok(true)) {
                Allocation::Finished(Ok(()))
            } else {
                Allocation::ZeroFill(async_zero_fill(current_size, size))
            },
            (Allocation::ZeroFill(fill), AllocationEvent::ZeroFill(event)) => match fill.step(
                event,
            ) {
                ZeroFill::Finished(result) => Allocation::Finished(result),
                fill => Allocation::ZeroFill(fill),
            },
            (state, _) => state,
        }
    }
}

impl<E> Machine for Allocation<E> {
    type Event = AllocationEvent<E>;

    open spec fn next(self, event: AllocationEvent<E>) -> Self {
        self.after(event)
    }

    /// While the length is read, accepted bytes may arrive, and it is the length of the file at
    /// some moment of that time. A fast path waits for what was accepted, or does nothing; what
    /// it then makes of the file is [`is_fast_path_effect`](image::is_fast_path_effect).
    open spec fn outcome(
        self,
        zeroing: bool,
        event: AllocationEvent<E>,
        before: FileImage,
        after: FileImage,
    ) -> bool {
        match (self, event) {
            (Allocation::ReadLength { .. }, AllocationEvent::LengthRead(length)) => {
                &&& before.arrives_as(after)
                &&& length matches Ok(n) ==> before.contents.len() <= n <= after.contents.len()
            },
            (
                Allocation::TryFastPreallocate { current_size, size },
                AllocationEvent::Preallocated(outcome),
            ) => {
                let done = outcome == Ok::<bool, AllocError<E>>(true);
                ||| !done && before.arrives_as(after)
                ||| exists|waited: FileImage|
                    {
                        &&& #[trigger] before.waits_as(waited)
                        &&& image::is_fast_path_effect(
                            zeroing,
                            current_size as nat,
                            size as nat,
                            done,
                            waited,
                            after,
                        )
                    }
            },
            (Allocation::ZeroFill(fill), AllocationEvent::ZeroFill(event)) => fill.outcome(
                zeroing,
                event,
                before,
                after,
            ),
            _ => false,
        }
    }
}

} // verus!
