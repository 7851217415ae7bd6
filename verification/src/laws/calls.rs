//! The calls that each machine asks for, and what it ends with, told by what the calls before came
//! to. Nothing is assumed here of what a call does to the file.

use crate::allocate::{Allocation, AllocationEvent};
use crate::error::AllocError;
use crate::windows::{Luid, PrivilegeEvent, PrivilegeSetup};
use crate::zero_fill::{chunk_len, ZeroFill, ZeroFillEvent, CHUNK_SIZE};
use crate::{unix, windows};
use vstd::prelude::*;

verus! {

/// The chunk is the largest number of bytes that exceeds neither what is left nor the limit of one
/// write.
pub proof fn law_chunk_is_the_largest(remaining: nat, n: nat)
    ensures
        chunk_len(remaining) <= remaining,
        chunk_len(remaining) <= CHUNK_SIZE,
        n <= remaining && n <= CHUNK_SIZE ==> n <= chunk_len(remaining),
{
}

/// The states of a zero fill of `from..to`, with the events between them.
pub open spec fn is_zero_fill_trace<E>(
    from: u64,
    to: u64,
    states: Seq<ZeroFill<E>>,
    events: Seq<ZeroFillEvent<E>>,
) -> bool {
    &&& states.len() == events.len() + 1
    &&& states[0] == (ZeroFill::<E>::Seek { current_size: from, target_size: to })
    &&& forall|i: int|
        0 <= i < events.len() ==> {
            &&& states[i].accepts(#[trigger] events[i])
            &&& states[i + 1] == states[i].after(events[i])
        }
}

/// The number of bytes that the writes among the first `n` events were accepted for.
pub open spec fn accepted_bytes<E>(events: Seq<ZeroFillEvent<E>>, n: int) -> int
    decreases n,
{
    if n <= 0 {
        0
    } else {
        accepted_bytes(events, n - 1) + match events[n - 1] {
            ZeroFillEvent::Written(Ok(count)) => count as int,
            _ => 0,
        }
    }
}

/// Each state of a zero fill waits for its own call, whatever that comes to, and for no other. The
/// one thing that is left out is a write that would end past the largest file position.
pub proof fn law_zero_fill_takes_every_answer<E>(fill: ZeroFill<E>, event: ZeroFillEvent<E>)
    ensures
        fill.accepts(event) <==> match event {
            ZeroFillEvent::Sought(_) => fill is Seek,
            ZeroFillEvent::Written(Ok(n)) => fill matches ZeroFill::Write { current_size, .. }
                && current_size + n <= u64::MAX,
            ZeroFillEvent::Written(Err(_)) => fill is Write,
            ZeroFillEvent::Flushed(_) => fill is Flush,
        },
{
}

/// A zero fill seeks once, at first. It then writes where the bytes accepted so far end, as many
/// bytes as one write takes or as are left, as long as any are. It flushes once, when none is
/// left, and succeeds when the flush has. It fails when a call has, with its error, or when a
/// write was accepted for no byte.
pub proof fn law_zero_fill_calls<E>(
    from: u64,
    to: u64,
    states: Seq<ZeroFill<E>>,
    events: Seq<ZeroFillEvent<E>>,
    i: int,
)
    requires
        is_zero_fill_trace(from, to, states, events),
        0 <= i < states.len(),
    ensures
        match states[i] {
            ZeroFill::Seek { .. } => i == 0,
            ZeroFill::Write { current_size, target_size, to_write } => {
                &&& i > 0
                &&& current_size == from + accepted_bytes(events, i)
                &&& target_size == to
                &&& current_size < to
                &&& to_write <= to - current_size
                &&& to_write <= CHUNK_SIZE
                &&& to_write == to - current_size || to_write == CHUNK_SIZE
            },
            ZeroFill::Flush => {
                &&& i > 0
                &&& events[i - 1] is Sought || events[i - 1] is Written
                &&& from + accepted_bytes(events, i) >= to
            },
            ZeroFill::Finished(Ok(_)) => {
                &&& i > 0
                &&& events[i - 1] matches ZeroFillEvent::Flushed(Ok(_))
                &&& from + accepted_bytes(events, i) >= to
            },
            ZeroFill::Finished(Err(error)) => {
                &&& i > 0
                &&& match events[i - 1] {
                    ZeroFillEvent::Sought(Err(e)) => error == AllocError::Os(e),
                    ZeroFillEvent::Written(Err(e)) => error == AllocError::Os(e),
                    ZeroFillEvent::Flushed(Err(e)) => error == AllocError::Os(e),
                    ZeroFillEvent::Written(Ok(n)) => n == 0 && error
                        == AllocError::<E>::WriteZero,
                    _ => false,
                }
            },
        },
        i > 0 ==> match events[i - 1] {
            ZeroFillEvent::Sought(r) => r is Err ==> states[i] is Finished,
            ZeroFillEvent::Written(Ok(n)) => n == 0 <==> states[i] is Finished,
            ZeroFillEvent::Written(Err(_)) => states[i] is Finished,
            ZeroFillEvent::Flushed(_) => states[i] is Finished,
        },
    decreases i,
{
    if i > 0 {
        law_zero_fill_calls(from, to, states, events, i - 1);
        assert(states[i - 1].accepts(events[i - 1]));
        if i == 1 {
            assert(accepted_bytes(events, 0) == 0);
        }
    }
}

/// Where every write is accepted for all the bytes that it offers, a zero fill that succeeds makes
/// one write for each started chunk, besides the seek and the flush.
pub proof fn law_zero_fill_writes_full_chunks<E>(
    from: u64,
    to: u64,
    states: Seq<ZeroFill<E>>,
    events: Seq<ZeroFillEvent<E>>,
)
    requires
        is_zero_fill_trace(from, to, states, events),
        forall|i: int|
            0 <= i < events.len() && (#[trigger] states[i]) is Write ==> {
                &&& events[i] matches ZeroFillEvent::Written(Ok(n))
                &&& n == states[i]->to_write
            },
        states.last() matches ZeroFill::Finished(Ok(_)),
    ensures
        events.len() == 2 + (if from < to {
            (to - from + CHUNK_SIZE - 1) / (CHUNK_SIZE as int)
        } else {
            0
        }),
{
    let last = events.len() - 1;
    law_zero_fill_calls(from, to, states, events, last + 1);
    law_zero_fill_calls(from, to, states, events, last);
    assert(states[last].accepts(events[last]));
    lemma_full_chunks(from, to, states, events, last);
}

proof fn lemma_full_chunks<E>(
    from: u64,
    to: u64,
    states: Seq<ZeroFill<E>>,
    events: Seq<ZeroFillEvent<E>>,
    i: int,
)
    requires
        is_zero_fill_trace(from, to, states, events),
        forall|j: int|
            0 <= j < events.len() && (#[trigger] states[j]) is Write ==> {
                &&& events[j] matches ZeroFillEvent::Written(Ok(n))
                &&& n == states[j]->to_write
            },
        0 < i < states.len(),
    ensures
        states[i] is Write ==> accepted_bytes(events, i) == (i - 1) * CHUNK_SIZE,
        states[i] is Flush ==> {
            &&& from < to ==> i > 1 && (i - 2) * CHUNK_SIZE < to - from <= (i - 1) * CHUNK_SIZE
            &&& from >= to ==> i == 1
        },
    decreases i,
{
    law_zero_fill_calls(from, to, states, events, i - 1);
    law_zero_fill_calls(from, to, states, events, i);
    assert(states[i - 1].accepts(events[i - 1]));
    if i > 1 {
        lemma_full_chunks(from, to, states, events, i - 1);
    } else {
        assert(accepted_bytes(events, 0) == 0);
    }
}

/// The states of an allocation of `size` bytes, with the events between them.
pub open spec fn is_allocation_trace<E>(
    size: u64,
    states: Seq<Allocation<E>>,
    events: Seq<AllocationEvent<E>>,
) -> bool {
    &&& states.len() == events.len() + 1
    &&& states[0] == (Allocation::<E>::ReadLength { size })
    &&& forall|i: int|
        0 <= i < events.len() ==> {
            &&& states[i].accepts(#[trigger] events[i])
            &&& states[i + 1] == states[i].after(events[i])
        }
}

/// Each state of an allocation waits for its own call, whatever that comes to, and for no other.
pub proof fn law_allocation_takes_every_answer<E>(
    allocation: Allocation<E>,
    event: AllocationEvent<E>,
)
    ensures
        allocation.accepts(event) <==> match event {
            AllocationEvent::LengthRead(_) => allocation is ReadLength,
            AllocationEvent::Preallocated(_) => allocation is TryFastPreallocate,
            AllocationEvent::ZeroFill(event) => allocation matches Allocation::ZeroFill(fill)
                && fill.accepts(event),
        },
{
}

/// An allocation reads the length once, at first. If the file is too short, it tries the fast path
/// once, from that length to the size asked for; if not, it has succeeded. It has succeeded too if
/// the fast path did the work. Whatever else the fast path came to, it goes on with a zero fill,
/// which ends it.
pub proof fn law_allocation_calls<E>(
    size: u64,
    states: Seq<Allocation<E>>,
    events: Seq<AllocationEvent<E>>,
    i: int,
)
    requires
        is_allocation_trace(size, states, events),
        0 <= i < states.len(),
    ensures
        match states[i] {
            Allocation::ReadLength { .. } => i == 0,
            Allocation::TryFastPreallocate { current_size, size: wanted } => {
                &&& i == 1
                &&& events[0] == AllocationEvent::<E>::LengthRead(Ok(current_size))
                &&& current_size < size
                &&& wanted == size
            },
            Allocation::ZeroFill(_) => {
                &&& i >= 2
                &&& events[1] matches AllocationEvent::Preallocated(outcome)
                &&& !(outcome matches Ok(done) && done)
            },
            Allocation::Finished(result) => {
                ||| i == 1 && match events[0] {
                    AllocationEvent::LengthRead(Ok(n)) => n >= size && result is Ok,
                    AllocationEvent::LengthRead(Err(e)) => result == Err::<(), AllocError<E>>(
                        AllocError::Os(e),
                    ),
                    _ => false,
                }
                ||| i == 2 && result is Ok && events[1] == AllocationEvent::<E>::Preallocated(
                    Ok(true),
                )
                ||| i > 2 && events[i - 1] is ZeroFill
            },
        },
    decreases i,
{
    if i > 0 {
        law_allocation_calls(size, states, events, i - 1);
        assert(states[i - 1].accepts(events[i - 1]));
    }
}

/// What follows a fast path that did not do the work is a zero fill from the length that was read
/// to the size asked for: its calls are those of the allocation from then on, what they come to is
/// what it is told, and its end is the end of the allocation.
pub proof fn law_allocation_ends_with_a_zero_fill<E>(
    size: u64,
    states: Seq<Allocation<E>>,
    events: Seq<AllocationEvent<E>>,
    current_size: u64,
) -> (fill: (Seq<ZeroFill<E>>, Seq<ZeroFillEvent<E>>))
    requires
        is_allocation_trace(size, states, events),
        events.len() >= 2,
        events[0] == AllocationEvent::<E>::LengthRead(Ok(current_size)),
        events[1] != AllocationEvent::<E>::Preallocated(Ok(true)),
    ensures
        is_zero_fill_trace(current_size, size, fill.0, fill.1),
        fill.1.len() == events.len() - 2,
        forall|j: int|
            0 <= j < fill.1.len() ==> events[j + 2] == AllocationEvent::ZeroFill(
                #[trigger] fill.1[j],
            ),
        forall|j: int|
            0 <= j < fill.0.len() ==> match #[trigger] fill.0[j] {
                ZeroFill::Finished(result) => states[j + 2] == Allocation::Finished(result),
                state => states[j + 2] == Allocation::ZeroFill(state),
            },
    decreases events.len(),
{
    let n = events.len() as int;
    law_allocation_calls(size, states, events, 1);
    law_allocation_calls(size, states, events, 2);
    assert(states[0].accepts(events[0]));
    assert(states[1].accepts(events[1]));
    if n == 2 {
        let fills = seq![ZeroFill::<E>::Seek { current_size, target_size: size }];
        let none = Seq::<ZeroFillEvent<E>>::empty();
        assert(states[2] == Allocation::ZeroFill(fills[0]));
        (fills, none)
    } else {
        let states0 = states.drop_last();
        let events0 = events.drop_last();
        assert forall|i: int| 0 <= i < events0.len() implies {
            &&& states0[i].accepts(#[trigger] events0[i])
            &&& states0[i + 1] == states0[i].after(events0[i])
        } by {
            assert(states[i].accepts(events[i]));
        }
        let (fills, before) = law_allocation_ends_with_a_zero_fill(
            size,
            states0,
            events0,
            current_size,
        );
        assert(states[n - 1].accepts(events[n - 1]));
        assert(fills[n - 3] == fills.last());
        let event = events[n - 1]->ZeroFill_0;
        let next = fills.last().after(event);
        let fills1 = fills.push(next);
        let events1 = before.push(event);
        assert forall|j: int| 0 <= j < events1.len() implies {
            &&& fills1[j].accepts(#[trigger] events1[j])
            &&& fills1[j + 1] == fills1[j].after(events1[j])
        } by {
            if j < before.len() {
                assert(fills[j].accepts(before[j]));
            }
        }
        (fills1, events1)
    }
}

/// The states of the Unix fast path from `current_size` to `size`, with the events between them.
pub open spec fn is_unix_trace<E>(
    current_size: u64,
    size: u64,
    states: Seq<unix::Preallocation<E>>,
    events: Seq<unix::PreallocationEvent<E>>,
) -> bool {
    &&& states.len() == events.len() + 1
    &&& states[0] == (unix::Preallocation::<E>::CloneHandle { current_size, size })
    &&& forall|i: int|
        0 <= i < events.len() ==> {
            &&& states[i].accepts(#[trigger] events[i])
            &&& states[i + 1] == states[i].after(events[i])
        }
}

/// Each state of the Unix fast path waits for its own call, whatever that comes to, and for no
/// other. A handle that was cloned for a range that ends before it begins is left out.
pub proof fn law_unix_takes_every_answer<E>(
    state: unix::Preallocation<E>,
    event: unix::PreallocationEvent<E>,
)
    ensures
        state.accepts(event) <==> match event {
            unix::PreallocationEvent::HandleCloned(r) => {
                state matches unix::Preallocation::CloneHandle { current_size, size } && (r is Err
                    || current_size <= size)
            },
            unix::PreallocationEvent::Fallocated(_) => state is Fallocate,
            unix::PreallocationEvent::TaskFailed(_) => state is Fallocate,
        },
{
}

/// The Unix fast path clones the handle and then asks once for the missing range: a byte lies in
/// the range asked for exactly if it lies in `current_size..size`. It has done the work exactly if
/// that call succeeds, and has not if it fails. It fails exactly if the handle cannot be cloned or
/// the task does not run to its end, with that error.
pub proof fn law_unix_calls<E>(
    current_size: u64,
    size: u64,
    states: Seq<unix::Preallocation<E>>,
    events: Seq<unix::PreallocationEvent<E>>,
    i: int,
    byte: int,
)
    requires
        is_unix_trace(current_size, size, states, events),
        0 <= i < states.len(),
    ensures
        match states[i] {
            unix::Preallocation::CloneHandle { .. } => i == 0,
            unix::Preallocation::Fallocate { offset, len } => {
                &&& i == 1
                &&& events[0] matches unix::PreallocationEvent::HandleCloned(Ok(_))
                &&& offset <= byte < offset + len <==> current_size <= byte < size
                &&& offset == current_size
                &&& offset + len == size
            },
            unix::Preallocation::Finished(Ok(done)) => {
                &&& i == 2
                &&& events[0] matches unix::PreallocationEvent::HandleCloned(Ok(_))
                &&& events[1] matches unix::PreallocationEvent::Fallocated(r)
                &&& done <==> r is Ok
            },
            unix::Preallocation::Finished(Err(error)) => {
                ||| i == 1 && (events[0] matches unix::PreallocationEvent::HandleCloned(Err(e))
                    && error == AllocError::Os(e))
                ||| i == 2 && (events[1] matches unix::PreallocationEvent::TaskFailed(e) && error
                    == AllocError::Os(e))
            },
        },
    decreases i,
{
    if i > 0 {
        law_unix_calls(current_size, size, states, events, i - 1, byte);
        assert(states[i - 1].accepts(events[i - 1]));
    }
}

/// The states of the Windows fast path from `current_size` to `size`, with the events between
/// them.
pub open spec fn is_windows_trace<E>(
    current_size: u64,
    size: u64,
    states: Seq<windows::Preallocation<E>>,
    events: Seq<windows::PreallocationEvent<E>>,
) -> bool {
    &&& states.len() == events.len() + 1
    &&& states[0] == (windows::Preallocation::<E>::CheckPrivilege { current_size, size })
    &&& forall|i: int|
        0 <= i < events.len() ==> {
            &&& states[i].accepts(#[trigger] events[i])
            &&& states[i + 1] == states[i].after(events[i])
        }
}

/// Each state of the Windows fast path waits for its own call, whatever that comes to, and for no
/// other.
pub proof fn law_windows_takes_every_answer<E>(
    state: windows::Preallocation<E>,
    event: windows::PreallocationEvent<E>,
)
    ensures
        state.accepts(event) <==> match event {
            windows::PreallocationEvent::PrivilegeChecked(_) => state is CheckPrivilege,
            windows::PreallocationEvent::HandleCloned(_) => state is CloneHandle,
            windows::PreallocationEvent::TaskEnded(_) => state is RunTask,
        },
{
}

/// The Windows fast path clones the handle exactly if the privilege is enabled, and has not done
/// the work if it is not. With the handle it runs the task, for the same sizes, and its outcome is
/// that of the task. It fails otherwise only if the handle cannot be cloned or the task does not
/// run to its end, with that error.
pub proof fn law_windows_calls<E>(
    current_size: u64,
    size: u64,
    states: Seq<windows::Preallocation<E>>,
    events: Seq<windows::PreallocationEvent<E>>,
    i: int,
)
    requires
        is_windows_trace(current_size, size, states, events),
        0 <= i < states.len(),
    ensures
        match states[i] {
            windows::Preallocation::CheckPrivilege { .. } => i == 0,
            windows::Preallocation::CloneHandle { current_size: current, size: wanted } => {
                &&& i == 1
                &&& events[0] == windows::PreallocationEvent::<E>::PrivilegeChecked(true)
                &&& current == current_size
                &&& wanted == size
            },
            windows::Preallocation::RunTask { current_size: current, size: wanted } => {
                &&& i == 2
                &&& events[0] == windows::PreallocationEvent::<E>::PrivilegeChecked(true)
                &&& events[1] matches windows::PreallocationEvent::HandleCloned(Ok(_))
                &&& current == current_size
                &&& wanted == size
            },
            windows::Preallocation::Finished(outcome) => {
                ||| i == 1 && outcome == Ok::<bool, AllocError<E>>(false) && events[0]
                    == windows::PreallocationEvent::<E>::PrivilegeChecked(false)
                ||| i == 2 && (events[1] matches windows::PreallocationEvent::HandleCloned(Err(e))
                    && outcome == Err::<bool, AllocError<E>>(AllocError::Os(e)))
                ||| i == 3 && (events[2] matches windows::PreallocationEvent::TaskEnded(r)
                    && match r {
                    Ok(of_task) => outcome == of_task,
                    Err(e) => outcome == Err::<bool, AllocError<E>>(AllocError::Os(e)),
                })
            },
        },
    decreases i,
{
    if i > 0 {
        law_windows_calls(current_size, size, states, events, i - 1);
        assert(states[i - 1].accepts(events[i - 1]));
    }
}

/// A Windows fast path that has ended made a single call exactly if the privilege was not enabled,
/// and ran the task exactly if it was and the handle could be cloned.
pub proof fn law_windows_uses_the_privilege<E>(
    current_size: u64,
    size: u64,
    states: Seq<windows::Preallocation<E>>,
    events: Seq<windows::PreallocationEvent<E>>,
)
    requires
        is_windows_trace(current_size, size, states, events),
        states.last() is Finished,
    ensures
        events.len() == 1 <==> events[0] == windows::PreallocationEvent::<
            E,
        >::PrivilegeChecked(false),
        events.len() == 3 <==> {
            &&& events[0] == windows::PreallocationEvent::<E>::PrivilegeChecked(true)
            &&& events[1] matches windows::PreallocationEvent::HandleCloned(Ok(_))
        },
        events.len() <= 3,
{
    law_windows_calls(current_size, size, states, events, states.len() - 1);
    law_windows_calls(current_size, size, states, events, 1);
    assert(states[0].accepts(events[0]));
    if events.len() > 1 {
        assert(states[1].accepts(events[1]));
        law_windows_calls(current_size, size, states, events, 2);
    }
}

/// The states of the blocking task from `current_size` to `size`, with the events between them.
pub open spec fn is_task_trace<E>(
    current_size: u64,
    size: u64,
    states: Seq<windows::LengthTask<E>>,
    events: Seq<windows::LengthTaskEvent<E>>,
) -> bool {
    &&& states.len() == events.len() + 1
    &&& states[0] == (windows::LengthTask::<E>::SetLength { current_size, size })
    &&& forall|i: int|
        0 <= i < events.len() ==> {
            &&& states[i].accepts(#[trigger] events[i])
            &&& states[i + 1] == states[i].after(events[i])
        }
}

/// Each state of the blocking task waits for its own call, whatever that comes to, and for no
/// other.
pub proof fn law_task_takes_every_answer<E>(
    state: windows::LengthTask<E>,
    event: windows::LengthTaskEvent<E>,
)
    ensures
        state.accepts(event) <==> match event {
            windows::LengthTaskEvent::LengthSet(_) => state is SetLength || state is RestoreLength,
            windows::LengthTaskEvent::ValidDataSet(_) => state is SetValidData,
        },
{
}

/// The blocking task sets the length once, to `size`. If that succeeds and `size` is a signed
/// 64-bit length, it declares just that length valid; if it is none, the size is too large. The
/// work is done exactly if declaring the length valid succeeds. If that fails, the old length is
/// set again, after which the work is not done. It fails with the error of a call that sets the
/// length, and otherwise only for a size that is too large.
pub proof fn law_task_calls<E>(
    current_size: u64,
    size: u64,
    states: Seq<windows::LengthTask<E>>,
    events: Seq<windows::LengthTaskEvent<E>>,
    i: int,
)
    requires
        is_task_trace(current_size, size, states, events),
        0 <= i < states.len(),
    ensures
        match states[i] {
            windows::LengthTask::SetLength { size: wanted, .. } => i == 0 && wanted == size,
            windows::LengthTask::SetValidData { current_size: current, valid_length } => {
                &&& i == 1
                &&& events[0] matches windows::LengthTaskEvent::LengthSet(Ok(_))
                &&& valid_length == size
                &&& current == current_size
            },
            windows::LengthTask::RestoreLength { current_size: current } => {
                &&& i == 2
                &&& events[1] == windows::LengthTaskEvent::<E>::ValidDataSet(false)
                &&& current == current_size
            },
            windows::LengthTask::Finished(Ok(done)) => {
                ||| done && i == 2 && events[1] == windows::LengthTaskEvent::<E>::ValidDataSet(true)
                ||| !done && i == 3 && events[1] == windows::LengthTaskEvent::<E>::ValidDataSet(
                    false,
                ) && (events[2] matches windows::LengthTaskEvent::LengthSet(Ok(_)))
            },
            windows::LengthTask::Finished(Err(error)) => {
                ||| i == 1 && size > i64::MAX && error == AllocError::<E>::FileTooLarge && (
                events[0] matches windows::LengthTaskEvent::LengthSet(Ok(_)))
                ||| (i == 1 || i == 3) && (events[i
                    - 1] matches windows::LengthTaskEvent::LengthSet(Err(e)) && error
                    == AllocError::Os(e))
            },
        },
    decreases i,
{
    if i > 0 {
        law_task_calls(current_size, size, states, events, i - 1);
        assert(states[i - 1].accepts(events[i - 1]));
    }
}

/// For a size that is a signed 64-bit length, a blocking task that has ended without a failure to
/// set the length has come to an outcome, which is whether the length could be declared valid.
pub proof fn law_task_succeeds_without_a_failure<E>(
    current_size: u64,
    size: u64,
    states: Seq<windows::LengthTask<E>>,
    events: Seq<windows::LengthTaskEvent<E>>,
)
    requires
        is_task_trace(current_size, size, states, events),
        states.last() is Finished,
        size <= i64::MAX,
        forall|i: int|
            0 <= i < events.len() ==> match #[trigger] events[i] {
                windows::LengthTaskEvent::LengthSet(r) => r is Ok,
                _ => true,
            },
    ensures
        events.len() >= 2,
        events[1] matches windows::LengthTaskEvent::ValidDataSet(ok) && states.last()
            == windows::LengthTask::<E>::Finished(Ok(ok)),
{
    let last = events.len() - 1;
    law_task_calls(current_size, size, states, events, states.len() - 1);
    assert(!(events[last] matches windows::LengthTaskEvent::LengthSet(Err(_))));
    assert(!(events[0] matches windows::LengthTaskEvent::LengthSet(Err(_))));
}

/// The states of a privilege setup, with the events between them.
pub open spec fn is_setup_trace(
    remembered: Option<bool>,
    states: Seq<PrivilegeSetup>,
    events: Seq<PrivilegeEvent>,
) -> bool {
    &&& states.len() == events.len() + 1
    &&& states[0] == PrivilegeSetup::starting(remembered)
    &&& forall|i: int|
        0 <= i < events.len() ==> {
            &&& states[i].accepts(#[trigger] events[i])
            &&& states[i + 1] == states[i].after(events[i])
        }
}

/// Each state of a setup waits for its own call, whatever that comes to, and for no other.
pub proof fn law_setup_takes_every_answer(state: PrivilegeSetup, event: PrivilegeEvent)
    ensures
        state.accepts(event) <==> match event {
            PrivilegeEvent::TokenOpened(_) => state is OpenToken,
            PrivilegeEvent::PrivilegeFound(_) => state is LookupPrivilege,
            PrivilegeEvent::PrivilegesAdjusted(_) => state is AdjustPrivileges,
            PrivilegeEvent::LastErrorRead(_) => state is ReadLastError,
            PrivilegeEvent::TokenClosed => state is CloseToken,
        },
{
}

/// A setup without an earlier answer opens the token to read it and to change its privileges. If
/// it is opened, the setup looks up the privilege to manage volumes, enables the one that it has
/// found, and reads the last error if that call succeeded. It then closes the token, and comes to
/// say that the privilege is enabled exactly if the last error was read and is none.
pub proof fn law_setup_calls(states: Seq<PrivilegeSetup>, events: Seq<PrivilegeEvent>, i: int)
    requires
        is_setup_trace(None, states, events),
        0 <= i < states.len(),
    ensures
        match states[i] {
            PrivilegeSetup::OpenToken { access } => i == 0 && access == 0x28,
            PrivilegeSetup::LookupPrivilege { name } => {
                &&& i == 1
                &&& events[0] == PrivilegeEvent::TokenOpened(true)
                &&& name == "SeManageVolumePrivilege\0"
            },
            PrivilegeSetup::AdjustPrivileges { luid, attributes } => {
                &&& i == 2
                &&& events[1] == PrivilegeEvent::PrivilegeFound(Some(luid))
                &&& attributes == 0x02
            },
            PrivilegeSetup::ReadLastError => {
                &&& i == 3
                &&& events[2] == PrivilegeEvent::PrivilegesAdjusted(true)
            },
            PrivilegeSetup::CloseToken { enabled } => {
                &&& enabled <==> i == 4 && events[3] == PrivilegeEvent::LastErrorRead(0)
                &&& {
                    ||| i == 2 && events[1] == PrivilegeEvent::PrivilegeFound(None::<Luid>)
                    ||| i == 3 && events[2] == PrivilegeEvent::PrivilegesAdjusted(false)
                    ||| i == 4 && events[3] is LastErrorRead
                }
            },
            PrivilegeSetup::Finished(enabled) => {
                ||| i == 1 && !enabled && events[0] == PrivilegeEvent::TokenOpened(false)
                ||| i >= 3 && events[i - 1] is TokenClosed && states[i - 1] == (
                PrivilegeSetup::CloseToken { enabled })
            },
        },
    decreases i,
{
    assert(0x20u32 | 0x08u32 == 0x28u32) by (bit_vector);
    if i > 0 {
        law_setup_calls(states, events, i - 1);
        assert(states[i - 1].accepts(events[i - 1]));
    }
}

/// A setup that has ended says that the privilege is enabled exactly if the token was opened, the
/// privilege was found and adjusted, and the last error then was none.
pub proof fn law_setup_result(
    states: Seq<PrivilegeSetup>,
    events: Seq<PrivilegeEvent>,
    enabled: bool,
)
    requires
        is_setup_trace(None, states, events),
        states.last() == PrivilegeSetup::Finished(enabled),
    ensures
        enabled <==> {
            &&& events.len() == 5
            &&& events[0] == PrivilegeEvent::TokenOpened(true)
            &&& events[1] matches PrivilegeEvent::PrivilegeFound(Some(_))
            &&& events[2] == PrivilegeEvent::PrivilegesAdjusted(true)
            &&& events[3] == PrivilegeEvent::LastErrorRead(0)
        },
        events.last() is TokenClosed <==> events[0] == PrivilegeEvent::TokenOpened(true),
{
    let n = events.len() as int;
    law_setup_calls(states, events, 0);
    law_setup_calls(states, events, n);
    law_setup_calls(states, events, n - 1);
    assert(states[0].accepts(events[0]));
    law_setup_calls(states, events, 1);
    if n >= 2 {
        assert(states[1].accepts(events[1]));
        law_setup_calls(states, events, 2);
    }
    if n >= 3 {
        assert(states[2].accepts(events[2]));
        law_setup_calls(states, events, 3);
    }
    if n >= 4 {
        assert(states[3].accepts(events[3]));
    }
}

/// A setup with an earlier answer makes no call and gives that answer.
pub proof fn law_setup_repeats_its_answer(
    remembered: bool,
    states: Seq<PrivilegeSetup>,
    events: Seq<PrivilegeEvent>,
)
    requires
        is_setup_trace(Some(remembered), states, events),
    ensures
        events.len() == 0,
        states[0] == PrivilegeSetup::Finished(remembered),
{
    if events.len() > 0 {
        assert(states[0].accepts(events[0]));
    }
}

} // verus!
