//! A file in memory, on a disk that may be small, slow or without a fast path.

use crate::allocate::{Allocation, AllocationEvent, FileAlloc};
use crate::error::AllocError;
use crate::image;
use crate::image::FileImage;
use crate::laws::allocation::{allocation_inv, allocation_rank, lemma_allocation_step};
use crate::laws::zero_fill::zero_fill_rank;
use crate::run::Machine;
use crate::unix;
use crate::zero_fill::{async_zero_fill, ZeroFill, ZeroFillEvent};
use vstd::prelude::*;

verus! {

/// What a disk is able to do.
#[derive(Clone, Copy, Debug, PartialEq, Eq, Structural)]
pub struct Disk {
    /// The position at which the disk is full.
    pub capacity: usize,
    /// The most bytes that one write is accepted for.
    pub write_limit: usize,
    /// Whether `fallocate` works.
    pub fallocate: bool,
}

/// Why a call on a [`MemoryFile`] failed.
#[derive(Clone, Copy, Debug, PartialEq, Eq, Structural)]
pub enum MemoryError {
    /// The disk is full.
    NoSpace,
    /// The disk does not do this.
    Unsupported,
}

/// A file in memory. What is written to it arrives at once.
#[derive(Debug)]
pub struct MemoryFile {
    pub contents: Vec<u8>,
    pub position: u64,
    pub disk: Disk,
}

/// `contents` with `bytes` written at `at`. A gap before `at` reads as zeros.
pub open spec fn overwritten(contents: Seq<u8>, at: nat, bytes: Seq<u8>) -> Seq<u8> {
    if bytes.len() == 0 {
        contents
    } else {
        Seq::new(
            if contents.len() < at + bytes.len() { at + bytes.len() } else { contents.len() },
            |i: int|
                if at <= i < at + bytes.len() {
                    bytes[i - at]
                } else if i < contents.len() {
                    contents[i]
                } else {
                    0u8
                },
        )
    }
}

/// The number of bytes that a write of `len` bytes at `position` is accepted for.
pub open spec fn accepted_len(disk: Disk, position: u64, len: nat) -> nat {
    let room = (disk.capacity - position) as nat;
    let wanted = if len < disk.write_limit { len } else { disk.write_limit as nat };
    if wanted < room {
        wanted
    } else {
        room
    }
}

impl MemoryFile {
    /// The length of the file.
    pub fn length(&self) -> (length: u64)
        ensures
            length == self.contents@.len(),
    {
        self.contents.len() as u64
    }

    /// Moves the position to `position`, counted from the start of the file.
    pub fn seek(&mut self, position: u64) -> (result: Result<u64, MemoryError>)
        ensures
            result == Ok::<u64, MemoryError>(position),
            final(self).position == position,
            final(self).contents == old(self).contents,
            final(self).disk == old(self).disk,
    {
        self.position = position;
        Ok(position)
    }

    /// Writes as many of `bytes` at the position as the disk accepts in one write, and moves the
    /// position behind them.
    pub fn write(&mut self, bytes: &[u8]) -> (result: Result<usize, MemoryError>)
        ensures
            final(self).disk == old(self).disk,
            if bytes@.len() == 0 || old(self).disk.write_limit == 0 {
                &&& result == Ok::<usize, MemoryError>(0)
                &&& *final(self) == *old(self)
            } else if old(self).position >= old(self).disk.capacity {
                &&& result == Err::<usize, MemoryError>(MemoryError::NoSpace)
                &&& *final(self) == *old(self)
            } else {
                let n = accepted_len(old(self).disk, old(self).position, bytes@.len());
                &&& result matches Ok(count)
                &&& count == n
                &&& final(self).contents@ == overwritten(
                    old(self).contents@,
                    old(self).position as nat,
                    bytes@.take(n as int),
                )
                &&& final(self).position == old(self).position + n
            },
    {
        if bytes.len() == 0 || self.disk.write_limit == 0 {
            return Ok(0);
        }
        if self.position >= self.disk.capacity as u64 {
            return Err(MemoryError::NoSpace);
        }
        let start: usize = self.position as usize;
        let room: usize = self.disk.capacity - start;
        let n: usize = bytes.len().min(self.disk.write_limit).min(room);
        if self.contents.len() < start {
            self.contents.resize(start, 0);
        }
        let ghost padded = self.contents@;
        let mut i: usize = 0;
        while i < n
            invariant
                i <= n,
                n <= bytes@.len(),
                start + n <= self.disk.capacity,
                self.disk == old(self).disk,
                self.position == old(self).position,
                start <= padded.len(),
                self.contents@ == overwritten(padded, start as nat, bytes@.take(i as int)),
            decreases n - i,
        {
            if start + i < self.contents.len() {
                self.contents.set(start + i, bytes[i]);
            } else {
                self.contents.push(bytes[i]);
            }
            i = i + 1;
            assert(self.contents@ =~= overwritten(padded, start as nat, bytes@.take(i as int)));
        }
        self.position = self.position + n as u64;
        assert(self.contents@ =~= overwritten(
            old(self).contents@,
            start as nat,
            bytes@.take(n as int),
        ));
        Ok(n)
    }

    /// Waits until what was written has arrived, which it has.
    pub fn flush(&mut self) -> (result: Result<(), MemoryError>)
        ensures
            result == Ok::<(), MemoryError>(()),
            *final(self) == *old(self),
    {
        Ok(())
    }

    /// Makes the file reach the end of the range of `len` bytes from `offset` on.
    pub fn fallocate(&mut self, offset: u64, len: u64) -> (result: Result<(), MemoryError>)
        ensures
            final(self).disk == old(self).disk,
            final(self).position == old(self).position,
            if !old(self).disk.fallocate {
                &&& result == Err::<(), MemoryError>(MemoryError::Unsupported)
                &&& *final(self) == *old(self)
            } else if offset + len > old(self).disk.capacity {
                &&& result == Err::<(), MemoryError>(MemoryError::NoSpace)
                &&& *final(self) == *old(self)
            } else {
                &&& result == Ok::<(), MemoryError>(())
                &&& final(self).contents@ == image::zero_extended(
                    old(self).contents@,
                    (offset + len) as nat,
                )
            },
    {
        if !self.disk.fallocate {
            return Err(MemoryError::Unsupported);
        }
        let capacity: u64 = self.disk.capacity as u64;
        if offset > capacity || len > capacity - offset {
            return Err(MemoryError::NoSpace);
        }
        let end: usize = (offset + len) as usize;
        if self.contents.len() < end {
            self.contents.resize(end, 0);
            assert(self.contents@ =~= image::zero_extended(old(self).contents@, end as nat));
        }
        Ok(())
    }
}

/// What filling `from..to` with zeros comes to on `disk`.
pub open spec fn fill_result(disk: Disk, from: u64, to: u64) -> Result<
    (),
    AllocError<MemoryError>,
> {
    if from >= to {
        Ok(())
    } else if disk.write_limit == 0 {
        Err(AllocError::WriteZero)
    } else if to <= disk.capacity {
        Ok(())
    } else {
        Err(AllocError::Os(MemoryError::NoSpace))
    }
}

/// Where filling `from..to` with zeros ends on `disk`.
pub open spec fn fill_end(disk: Disk, from: u64, to: u64) -> nat {
    if from >= to || disk.write_limit == 0 {
        from as nat
    } else if to <= disk.capacity {
        to as nat
    } else if from < disk.capacity {
        disk.capacity as nat
    } else {
        from as nat
    }
}

/// `after` is `before` once `from..to` has been filled as far as its disk allows.
pub open spec fn is_filled(before: MemoryFile, after: MemoryFile, from: u64, to: u64) -> bool {
    let end = fill_end(before.disk, from, to);
    &&& after.contents@ == image::zero_filled(before.contents@, from as nat, end)
    &&& after.position == end
    &&& after.disk == before.disk
}

/// What growing a file of `len` bytes to `size` comes to on `disk`.
pub open spec fn allocate_result(disk: Disk, len: nat, size: u64) -> Result<
    (),
    AllocError<MemoryError>,
> {
    if len >= size || (disk.fallocate && size <= disk.capacity) {
        Ok(())
    } else {
        fill_result(disk, len as u64, size)
    }
}

/// `after` is `before` once it has been grown to `size` as far as its disk allows.
pub open spec fn is_allocated(before: MemoryFile, after: MemoryFile, size: u64) -> bool {
    if before.contents@.len() >= size {
        after == before
    } else if before.disk.fallocate && size <= before.disk.capacity {
        &&& after.contents@ == image::zero_extended(before.contents@, size as nat)
        &&& after.position == before.position
        &&& after.disk == before.disk
    } else {
        is_filled(before, after, before.contents@.len() as u64, size)
    }
}

/// `event` and `after` are what the call that `fill` asks for gives on the file `before`.
spec fn is_fill_call(
    fill: ZeroFill<MemoryError>,
    event: ZeroFillEvent<MemoryError>,
    before: MemoryFile,
    after: MemoryFile,
) -> bool {
    &&& after.disk == before.disk
    &&& match fill {
        ZeroFill::Seek { current_size, .. } => {
            &&& event == ZeroFillEvent::<MemoryError>::Sought(Ok(current_size))
            &&& after.position == current_size
            &&& after.contents@ == before.contents@
        },
        ZeroFill::Write { to_write, .. } => if before.disk.write_limit == 0 {
            &&& event == ZeroFillEvent::<MemoryError>::Written(Ok(0))
            &&& after == before
        } else if before.position >= before.disk.capacity {
            &&& event == ZeroFillEvent::<MemoryError>::Written(Err(MemoryError::NoSpace))
            &&& after == before
        } else {
            let n = accepted_len(before.disk, before.position, to_write as nat);
            &&& event == ZeroFillEvent::<MemoryError>::Written(Ok(n as usize))
            &&& after.position == before.position + n
            &&& after.contents@ == image::zero_filled(
                before.contents@,
                before.position as nat,
                before.position as nat + n,
            )
        },
        ZeroFill::Flush => {
            &&& event == ZeroFillEvent::<MemoryError>::Flushed(Ok(()))
            &&& after == before
        },
        ZeroFill::Finished(_) => false,
    }
}

/// The relation between a fill of `from..to` and the file, which was `before` at the start.
spec fn fill_progress(
    before: MemoryFile,
    from: u64,
    to: u64,
    fill: ZeroFill<MemoryError>,
    file: MemoryFile,
) -> bool {
    &&& file.disk == before.disk
    &&& match fill {
        ZeroFill::Seek { current_size, target_size } => {
            &&& current_size == from
            &&& target_size == to
            &&& file.contents@ == before.contents@
        },
        ZeroFill::Write { current_size, target_size, .. } => {
            &&& fill.wf()
            &&& target_size == to
            &&& from <= current_size
            &&& from < current_size ==> before.disk.write_limit > 0 && current_size
                <= before.disk.capacity
            &&& file.position == current_size
            &&& file.contents@ == image::zero_filled(
                before.contents@,
                from as nat,
                current_size as nat,
            )
        },
        ZeroFill::Flush => {
            &&& fill_result(before.disk, from, to) is Ok
            &&& is_filled(before, file, from, to)
        },
        ZeroFill::Finished(result) => {
            &&& result == fill_result(before.disk, from, to)
            &&& is_filled(before, file, from, to)
        },
    }
}

proof fn lemma_fill_call(
    before: MemoryFile,
    from: u64,
    to: u64,
    fill: ZeroFill<MemoryError>,
    event: ZeroFillEvent<MemoryError>,
    file: MemoryFile,
    after: MemoryFile,
)
    requires
        fill_progress(before, from, to, fill, file),
        is_fill_call(fill, event, file, after),
    ensures
        fill.accepts(event),
        fill_progress(before, from, to, fill.after(event), after),
        zero_fill_rank(fill.after(event)) < zero_fill_rank(fill),
        fill.outcome(true, event, file.image(), after.image()),
{
    if fill is Write && event matches ZeroFillEvent::Written(Ok(n)) {
        image::lemma_zero_filled_twice(
            before.contents@,
            from as nat,
            file.position as nat,
            after.position as nat,
        );
    }
    image::lemma_at_rest(file.image());
    assert(file.image().settled_to(0) =~= file.image());
}

/// `after` is `before` after its fast path was tried up to `size`.
spec fn is_fast_call(before: MemoryFile, after: MemoryFile, size: u64) -> bool {
    &&& after.disk == before.disk
    &&& after.position == before.position
    &&& after.contents@ == if before.disk.fallocate && size <= before.disk.capacity {
        image::zero_extended(before.contents@, size as nat)
    } else {
        before.contents@
    }
}

/// `event` and `after` are what the call that `allocation` asks for gives on the file `before`.
spec fn is_allocation_call(
    allocation: Allocation<MemoryError>,
    event: AllocationEvent<MemoryError>,
    before: MemoryFile,
    after: MemoryFile,
) -> bool {
    match (allocation, event) {
        (Allocation::ReadLength { .. }, AllocationEvent::LengthRead(Ok(length))) => {
            &&& length == before.contents@.len()
            &&& after == before
        },
        (
            Allocation::TryFastPreallocate { size, .. },
            AllocationEvent::Preallocated(Ok(done)),
        ) => {
            &&& done == (before.disk.fallocate && size <= before.disk.capacity)
            &&& is_fast_call(before, after, size)
        },
        (Allocation::ZeroFill(fill), AllocationEvent::ZeroFill(event)) => is_fill_call(
            fill,
            event,
            before,
            after,
        ),
        _ => false,
    }
}

/// The relation between an allocation of `size` bytes and the file, which was `before` at the
/// start.
spec fn allocation_progress(
    before: MemoryFile,
    size: u64,
    allocation: Allocation<MemoryError>,
    file: MemoryFile,
) -> bool {
    &&& allocation_inv(true, before.contents@, size, allocation, file.image())
    &&& match allocation {
        Allocation::ReadLength { .. } => file == before,
        Allocation::TryFastPreallocate { .. } => file == before,
        Allocation::ZeroFill(fill) => {
            &&& !(before.disk.fallocate && size <= before.disk.capacity)
            &&& fill_progress(before, before.contents@.len() as u64, size, fill, file)
        },
        Allocation::Finished(result) => {
            &&& result == allocate_result(before.disk, before.contents@.len(), size)
            &&& is_allocated(before, file, size)
        },
    }
}

proof fn lemma_allocation_call(
    before: MemoryFile,
    size: u64,
    allocation: Allocation<MemoryError>,
    event: AllocationEvent<MemoryError>,
    file: MemoryFile,
    after: MemoryFile,
)
    requires
        allocation_progress(before, size, allocation, file),
        is_allocation_call(allocation, event, file, after),
    ensures
        allocation.accepts(event),
        allocation_progress(before, size, allocation.after(event), after),
        allocation_rank(allocation.after(event)) < allocation_rank(allocation),
{
    let contents = before.contents@;
    image::lemma_at_rest(file.image());
    match (allocation, event) {
        (Allocation::TryFastPreallocate { .. }, _) => {
            let grown = image::zero_extended(contents, size as nat);
            let kept = contents.take(contents.len() as int);
            assert(kept =~= grown.subrange(0, contents.len() as int));
            assert(file.image().waits_as(file.image()));
        },
        (Allocation::ZeroFill(fill), AllocationEvent::ZeroFill(event)) => {
            lemma_fill_call(before, contents.len() as u64, size, fill, event, file, after);
        },
        _ => {},
    }
    lemma_allocation_step(
        true,
        contents,
        size,
        allocation,
        event,
        file.image(),
        after.image(),
    );
}

impl MemoryFile {
    /// Makes the call that `fill` asks for.
    fn fill_call(&mut self, fill: &ZeroFill<MemoryError>) -> (event: ZeroFillEvent<MemoryError>)
        requires
            !(fill is Finished),
            fill.wf(),
        ensures
            is_fill_call(*fill, event, *old(self), *final(self)),
    {
        match fill {
            ZeroFill::Seek { current_size, .. } => ZeroFillEvent::Sought(self.seek(*current_size)),
            ZeroFill::Write { to_write, .. } => {
                let zeros: Vec<u8> = vec![0u8; *to_write];
                let result = self.write(zeros.as_slice());
                proof {
                    let n = accepted_len(old(self).disk, old(self).position, *to_write as nat);
                    assert(overwritten(
                        old(self).contents@,
                        old(self).position as nat,
                        zeros@.take(n as int),
                    ) =~= image::zero_filled(
                        old(self).contents@,
                        old(self).position as nat,
                        old(self).position as nat + n,
                    ));
                }
                ZeroFillEvent::Written(result)
            },
            ZeroFill::Flush => ZeroFillEvent::Flushed(self.flush()),
            ZeroFill::Finished(_) => unreached(),
        }
    }

    /// Fills `from..to` with zeros, as far as the disk allows.
    pub fn zero_fill(&mut self, from: u64, to: u64) -> (result: Result<
        (),
        AllocError<MemoryError>,
    >)
        ensures
            result == fill_result(old(self).disk, from, to),
            is_filled(*old(self), *final(self), from, to),
            result is Ok <==> from >= to || (old(self).disk.write_limit > 0
                && to <= old(self).disk.capacity),
            result == Err::<(), AllocError<MemoryError>>(AllocError::WriteZero) <==> from < to
                && old(self).disk.write_limit == 0,
            result == Err::<(), AllocError<MemoryError>>(AllocError::Os(MemoryError::NoSpace))
                <==> from < to && old(self).disk.write_limit > 0 && to > old(self).disk.capacity,
            forall|i: int|
                0 <= i < old(self).contents@.len() && !(from <= i < to)
                    ==> #[trigger] final(self).contents@[i] == old(self).contents@[i],
            result is Ok ==> forall|i: int|
                from <= i < to ==> #[trigger] final(self).contents@[i] == 0,
            result is Ok && from < to ==> final(self).contents@.len() >= to,
    {
        let mut fill: ZeroFill<MemoryError> = async_zero_fill(from, to);
        loop
            invariant
                fill_progress(*old(self), from, to, fill, *self),
            decreases zero_fill_rank(fill),
        {
            if let ZeroFill::Finished(result) = fill {
                return result;
            }
            let ghost before = *self;
            let event = self.fill_call(&fill);
            proof {
                lemma_fill_call(*old(self), from, to, fill, event, before, *self);
            }
            fill = fill.step(event);
        }
    }

    /// Tries the fast path, which is that of Unix.
    fn try_fast_preallocate(&mut self, current_size: u64, size: u64) -> (outcome: Result<
        bool,
        AllocError<MemoryError>,
    >)
        requires
            current_size == old(self).contents@.len(),
            current_size <= size,
        ensures
            outcome == Ok::<bool, AllocError<MemoryError>>(
                old(self).disk.fallocate && size <= old(self).disk.capacity,
            ),
            is_fast_call(*old(self), *final(self), size),
    {
        let start: unix::Preallocation<MemoryError> = unix::try_fast_preallocate(
            current_size,
            size,
        );
        let cloned = start.step(unix::PreallocationEvent::HandleCloned(Ok(())));
        let result = match &cloned {
            unix::Preallocation::Fallocate { offset, len } => self.fallocate(*offset, *len),
            _ => unreached(),
        };
        match cloned.step(unix::PreallocationEvent::Fallocated(result)) {
            unix::Preallocation::Finished(outcome) => outcome,
            _ => unreached(),
        }
    }
}

impl FileAlloc for MemoryFile {
    type OsError = MemoryError;

    open spec fn image(&self) -> FileImage {
        FileImage {
            contents: self.contents@,
            position: self.position as nat,
            buffered: 0,
            written: self.contents@.len(),
        }
    }

    open spec fn zeroing(&self) -> bool {
        true
    }

    fn allocate(&mut self, size: u64) -> (result: Result<(), AllocError<MemoryError>>)
        ensures
            result == allocate_result(old(self).disk, old(self).contents@.len(), size),
            is_allocated(*old(self), *final(self), size),
            result is Ok <==> old(self).contents@.len() >= size || (size <= old(self).disk.capacity
                && (old(self).disk.fallocate || old(self).disk.write_limit > 0)),
            result == Err::<(), AllocError<MemoryError>>(AllocError::WriteZero)
                <==> old(self).contents@.len() < size && old(self).disk.write_limit == 0
                && !(old(self).disk.fallocate && size <= old(self).disk.capacity),
            result == Err::<(), AllocError<MemoryError>>(AllocError::Os(MemoryError::NoSpace))
                <==> old(self).contents@.len() < size && old(self).disk.write_limit > 0 && size
                > old(self).disk.capacity,
            result is Ok ==> final(self).contents@.len() == if old(self).contents@.len() < size {
                size as nat
            } else {
                old(self).contents@.len()
            },
            final(self).contents@.len() >= old(self).contents@.len(),
            forall|i: int|
                0 <= i < old(self).contents@.len()
                    ==> #[trigger] final(self).contents@[i] == old(self).contents@[i],
            forall|i: int|
                old(self).contents@.len() <= i < final(self).contents@.len()
                    ==> #[trigger] final(self).contents@[i] == 0,
    {
        let mut allocation: Allocation<MemoryError> = Allocation::start(size);
        proof {
            image::lemma_first_attempt(true, size as nat, self.image());
        }
        loop
            invariant
                allocation_progress(*old(self), size, allocation, *self),
            decreases allocation_rank(allocation),
        {
            if let Allocation::Finished(result) = allocation {
                proof {
                    let end = self.image();
                    let contents = old(self).contents@;
                    image::lemma_may_settle_as_is(end);
                    if result is Ok {
                        image::lemma_partly_grown_to_size(
                            true,
                            contents,
                            size as nat,
                            end,
                            end.contents,
                        );
                    }
                }
                return result;
            }
            let ghost before = *self;
            let event: AllocationEvent<MemoryError> = match &allocation {
                Allocation::ReadLength { .. } => AllocationEvent::LengthRead(Ok(self.length())),
                Allocation::TryFastPreallocate { current_size, size } =>
                    AllocationEvent::Preallocated(self.try_fast_preallocate(*current_size, *size)),
                Allocation::ZeroFill(fill) => AllocationEvent::ZeroFill(self.fill_call(fill)),
                Allocation::Finished(_) => unreached(),
            };
            proof {
                lemma_allocation_call(*old(self), size, allocation, event, before, *self);
            }
            allocation = allocation.step(event);
        }
    }
}

} // verus!
