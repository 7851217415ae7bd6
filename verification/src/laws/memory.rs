//! Files in memory: when a call on them succeeds, and what it leaves, byte by byte.

use crate::error::AllocError;
use crate::memory::{
    accepted_len, allocate_result, fill_end, fill_result, is_allocated, is_filled, overwritten,
    Disk, MemoryError, MemoryFile,
};
use vstd::prelude::*;

verus! {

/// A write is accepted for as many bytes as were offered, as the disk takes in one write, and as
/// there is room for, and for no fewer than the least of these.
pub proof fn law_write_accepts_what_it_can(disk: Disk, position: u64, len: nat, n: nat)
    requires
        position < disk.capacity,
    ensures
        accepted_len(disk, position, len) <= len,
        accepted_len(disk, position, len) <= disk.write_limit,
        position + accepted_len(disk, position, len) <= disk.capacity,
        n <= len && n <= disk.write_limit && position + n <= disk.capacity ==> n <= accepted_len(
            disk,
            position,
            len,
        ),
{
}

/// Writing puts the bytes where they are written, and leaves every other byte as it was.
pub proof fn law_overwritten_bytes(contents: Seq<u8>, at: nat, bytes: Seq<u8>, i: int)
    ensures
        bytes.len() == 0 ==> overwritten(contents, at, bytes) == contents,
        at <= i < at + bytes.len() ==> {
            &&& i < overwritten(contents, at, bytes).len()
            &&& overwritten(contents, at, bytes)[i] == bytes[i - at]
        },
        0 <= i < contents.len() && !(at <= i < at + bytes.len()) ==> {
            &&& i < overwritten(contents, at, bytes).len()
            &&& overwritten(contents, at, bytes)[i] == contents[i]
        },
        contents.len() <= i < at && bytes.len() > 0 ==> overwritten(contents, at, bytes)[i] == 0,
        overwritten(contents, at, bytes).len() == contents.len() || overwritten(
            contents,
            at,
            bytes,
        ).len() == at + bytes.len(),
{
}

/// A fill succeeds exactly if there is nothing to fill, or the disk takes writes and has room for
/// all of it. It fails for want of room or because the disk takes no byte, and for nothing else.
pub proof fn law_fill_result(disk: Disk, from: u64, to: u64)
    ensures
        fill_result(disk, from, to) is Ok <==> from >= to || (disk.write_limit > 0 && to
            <= disk.capacity),
        fill_result(disk, from, to) == Err::<(), AllocError<MemoryError>>(AllocError::WriteZero)
            <==> from < to && disk.write_limit == 0,
        fill_result(disk, from, to) == Err::<(), AllocError<MemoryError>>(
            AllocError::Os(MemoryError::NoSpace),
        ) <==> from < to && disk.write_limit > 0 && to > disk.capacity,
{
}

/// A fill makes zeros of the bytes of its range as far as the disk has room, all of them if it
/// succeeds, and leaves every other byte, and the position at their end.
pub proof fn law_fill_bytes(before: MemoryFile, after: MemoryFile, from: u64, to: u64, i: int)
    requires
        is_filled(before, after, from, to),
    ensures
        after.disk == before.disk,
        from <= after.position,
        fill_result(before.disk, from, to) is Ok ==> after.position == if from < to {
            to
        } else {
            from
        },
        before.disk.write_limit == 0 ==> after.position == from,
        from < to && before.disk.write_limit > 0 && to > before.disk.capacity ==> after.position
            == if from < before.disk.capacity {
            before.disk.capacity as nat
        } else {
            from as nat
        },
        from <= i < after.position ==> i < after.contents@.len() && after.contents@[i] == 0,
        0 <= i < before.contents@.len() && !(from <= i < after.position) ==> i
            < after.contents@.len() && after.contents@[i] == before.contents@[i],
        after.contents@.len() == before.contents@.len() || after.contents@.len()
            == after.position,
        before.contents@.len() <= i < from && from < after.position ==> after.contents@[i] == 0,
{
    assert(after.position == fill_end(before.disk, from, to));
}

/// An allocation on a file in memory succeeds exactly if the file is long enough, or if there is
/// room for the size and the fast path works or the disk takes writes: that is, whenever no call
/// that it needs fails. It fails for want of room or because the disk takes no byte, and for
/// nothing else.
pub proof fn law_allocate_result(disk: Disk, len: nat, size: u64)
    ensures
        allocate_result(disk, len, size) is Ok <==> len >= size || (size <= disk.capacity && (
        disk.fallocate || disk.write_limit > 0)),
        allocate_result(disk, len, size) == Err::<(), AllocError<MemoryError>>(
            AllocError::WriteZero,
        ) <==> len < size && disk.write_limit == 0 && !(disk.fallocate && size <= disk.capacity),
        allocate_result(disk, len, size) == Err::<(), AllocError<MemoryError>>(
            AllocError::Os(MemoryError::NoSpace),
        ) <==> len < size && disk.write_limit > 0 && size > disk.capacity,
{
}

/// An allocation on a file in memory keeps every byte, appends zeros only, and reaches the size
/// exactly where it succeeds; where the disk is too small for it but takes writes, it fills the
/// disk. The fast path leaves the position, and so does an allocation with nothing to do; writing
/// leaves it at the end of the file.
pub proof fn law_allocate_bytes(before: MemoryFile, after: MemoryFile, size: u64, i: int)
    requires
        is_allocated(before, after, size),
    ensures
        after.disk == before.disk,
        after.contents@.len() >= before.contents@.len(),
        0 <= i < before.contents@.len() ==> after.contents@[i] == before.contents@[i],
        before.contents@.len() <= i < after.contents@.len() ==> after.contents@[i] == 0,
        after.contents@.len() >= size <==> allocate_result(
            before.disk,
            before.contents@.len(),
            size,
        ) is Ok,
        before.contents@.len() >= size ==> after == before,
        before.contents@.len() < size && allocate_result(
            before.disk,
            before.contents@.len(),
            size,
        ) is Ok ==> after.contents@.len() == size,
        before.contents@.len() < before.disk.capacity < size && before.disk.write_limit > 0
            ==> after.contents@.len() == before.disk.capacity,
        before.disk.fallocate && size <= before.disk.capacity ==> after.position
            == before.position,
        before.contents@.len() < size && !(before.disk.fallocate && size <= before.disk.capacity)
            ==> after.position == after.contents@.len(),
        before.disk.write_limit == 0 && !(before.disk.fallocate && size <= before.disk.capacity)
            ==> after.contents@.len() == before.contents@.len(),
        before.contents@.len() >= before.disk.capacity && size > before.disk.capacity
            ==> after.contents@.len() == before.contents@.len(),
{
}

} // verus!
