//! The fast paths of the platforms: each does to a file what an allocation counts on.

use crate::allocate::{Allocation, AllocationEvent};
use crate::error::AllocError;
use crate::image::{
    is_zero_extension, kept_len, lemma_arrives_then, lemma_at_rest, lemma_may_settle_as_is,
    lemma_waits_then, zero_extended, FileImage,
};
use crate::laws::allocation::{
    is_attempt, is_disturbed_attempt, is_found_short, lemma_allocation_run, lemma_disturbed_run,
};
use crate::run::{Machine, Run};
use crate::{unix, windows};
use vstd::prelude::*;

verus! {

/// The fast path from `current_size` to `size` may come to `outcome` and turn the file `before`
/// into `after` when an allocation asks for it.
pub open spec fn is_fast_path_outcome<E>(
    zeroing: bool,
    current_size: u64,
    size: u64,
    outcome: Result<bool, AllocError<E>>,
    before: FileImage,
    after: FileImage,
) -> bool {
    Allocation::TryFastPreallocate { current_size, size }.outcome(
        zeroing,
        AllocationEvent::Preallocated(outcome),
        before,
        after,
    )
}

/// `current_size` is a length that the file has had, and no byte in flight lies past `size`.
pub open spec fn is_short(current_size: u64, size: u64, image: FileImage) -> bool {
    &&& current_size <= image.contents.len() <= size
    &&& image.buffered <= image.position
    &&& image.buffered > 0 ==> image.position <= size
}

/// An allocation asks for the fast path of a short file only, with the length that it has read and
/// with the size asked for, so that the laws on the fast paths speak of it.
pub proof fn law_fast_path_is_asked_for_a_short_file<E>(
    zeroing: bool,
    run: Run<Allocation<E>>,
    old: Seq<u8>,
    size: u64,
    image: FileImage,
    i: int,
    current_size: u64,
    wanted: u64,
)
    requires
        is_attempt(zeroing, run, old, size, image),
        0 <= i < run.states.len(),
        run.states[i] == (Allocation::<E>::TryFastPreallocate { current_size, size: wanted }),
    ensures
        wanted == size,
        current_size < size,
        old.len() <= current_size,
        is_short(current_size, size, run.images[i]),
{
    lemma_allocation_run(zeroing, run, old, size, image, i);
    lemma_found_short(old, size, current_size, run.images[i]);
}

/// The same beside other hands that append zeros.
pub proof fn law_disturbed_fast_path_is_asked_for_a_short_file<E>(
    run: Run<Allocation<E>>,
    disturbed: Seq<FileImage>,
    old: Seq<u8>,
    size: u64,
    image: FileImage,
    i: int,
    current_size: u64,
    wanted: u64,
)
    requires
        is_disturbed_attempt(run, disturbed, old, size, image),
        0 <= i < run.states.len(),
        run.states[i] == (Allocation::<E>::TryFastPreallocate { current_size, size: wanted }),
    ensures
        wanted == size,
        current_size < size,
        old.len() <= current_size,
        is_short(current_size, size, disturbed[i]),
{
    lemma_disturbed_run(run, disturbed, old, size, image, i);
    lemma_found_short(old, size, current_size, disturbed[i]);
}

proof fn lemma_found_short(old: Seq<u8>, size: u64, current_size: u64, image: FileImage)
    requires
        image.buffered <= image.position,
        is_found_short(old, size, current_size, image),
    ensures
        is_short(current_size, size, image),
{
    lemma_may_settle_as_is(image);
    assert(image.may_settle_as(image.contents_after(image.buffered)));
}

/// The fast path of Unix keeps what an allocation counts on, and the space that it adds reads as
/// zeros. With nothing in flight before, the position is where it was, whatever the outcome.
pub proof fn law_unix_fast_path<E>(
    zeroing: bool,
    run: Run<unix::Preallocation<E>>,
    current_size: u64,
    size: u64,
    image: FileImage,
    outcome: Result<bool, AllocError<E>>,
)
    requires
        is_short(current_size, size, image),
        run.starts(zeroing, unix::Preallocation::CloneHandle { current_size, size }, image),
        run.end() == unix::Preallocation::Finished(outcome),
    ensures
        is_fast_path_outcome(true, current_size, size, outcome, image, run.end_image()),
        image.buffered == 0 ==> {
            &&& run.end_image().position == image.position
            &&& image.contents.is_prefix_of(run.end_image().contents)
            &&& outcome == Ok::<bool, AllocError<E>>(true) ==> run.end_image().contents
                == zero_extended(image.contents, size as nat)
        },
        run.events.len() <= 2,
{
    let waited = run.images[1];
    let end = run.end_image();
    assert(run.events.len() > 0);
    assert(run.is_step(zeroing, 0));
    lemma_waits_then(image, waited);
    let mid = waited.contents;
    assert(mid =~= zero_extended(mid, mid.len()));
    if run.events.len() > 1 {
        assert(run.is_step(zeroing, 1));
        if run.events.len() > 2 {
            assert(run.is_step(zeroing, 2));
        }
        let kept = mid.take(current_size as int);
        assert(kept =~= zero_extended(mid, size as nat).subrange(0, kept.len() as int));
    }
    assert(image.waits_as(waited));
    if image.buffered == 0 {
        lemma_at_rest(image);
        assert(mid =~= end.contents.subrange(0, mid.len() as int));
    }
}

/// Setting the length of a file and declaring it valid grows the file to `size` and keeps what was
/// written in it where it succeeds, restores the length where only the second call fails, and
/// otherwise leaves the file with zeros appended at most. It does not move the position.
pub proof fn law_windows_task<E>(
    zeroing: bool,
    run: Run<windows::LengthTask<E>>,
    current_size: u64,
    size: u64,
    image: FileImage,
    outcome: Result<bool, AllocError<E>>,
)
    requires
        current_size <= image.contents.len() <= size,
        run.starts(zeroing, windows::LengthTask::SetLength { current_size, size }, image),
        run.end() == windows::LengthTask::Finished(outcome),
    ensures
        windows::task_outcome(current_size, size, outcome, image, run.end_image()),
        run.end_image().position == image.position,
        run.end_image().buffered == image.buffered,
        outcome == Err::<bool, AllocError<E>>(AllocError::FileTooLarge) <==> size > i64::MAX
            && run.events[0] matches windows::LengthTaskEvent::LengthSet(Ok(_)),
        run.events.len() <= 3,
{
    let old = image.contents;
    assert(run.events.len() > 0);
    assert(run.is_step(zeroing, 0));
    assert(old =~= zero_extended(old, old.len()));
    assert(old.take(size as int) =~= old || old.len() < size);
    if run.events.len() > 1 {
        let len = kept_len(current_size as nat, image);
        let kept = old.take(len as int);
        let sized = run.images[1].contents;
        assert(run.is_step(zeroing, 1));
        assert(sized =~= zero_extended(old, size as nat));
        assert(sized.take(current_size as int) =~= old.take(current_size as int));
        if run.events.len() > 2 {
            assert(run.is_step(zeroing, 2));
            if run.events.len() > 3 {
                assert(run.is_step(zeroing, 3));
            }
        } else if outcome == Ok::<bool, AllocError<E>>(true) {
            let exposed = run.images[2].contents;
            let all = kept_len(sized.len(), run.images[1]) as int;
            assert(kept =~= exposed.subrange(0, kept.len() as int)) by {
                assert forall|i: int| 0 <= i < len implies kept[i] == exposed[i] by {
                    assert(exposed.take(all)[i] == sized.take(all)[i]);
                }
            }
        }
    }
}

/// The blocking task is asked for with the sizes of the fast path, on a file within them.
pub proof fn law_windows_task_is_asked_for_within_the_sizes<E>(
    zeroing: bool,
    run: Run<windows::Preallocation<E>>,
    current_size: u64,
    size: u64,
    image: FileImage,
    i: int,
)
    requires
        is_short(current_size, size, image),
        run.starts(zeroing, windows::Preallocation::CheckPrivilege { current_size, size }, image),
        0 <= i < run.states.len(),
        run.states[i] is RunTask,
    ensures
        run.states[i] == (windows::Preallocation::<E>::RunTask { current_size, size }),
        current_size <= run.images[i].contents.len() <= size,
        run.images[i].buffered == 0,
{
    assert(run.is_step(zeroing, 0));
    lemma_arrives_then(image, run.images[1]);
    if run.events.len() > 1 {
        assert(run.is_step(zeroing, 1));
        lemma_waits_then(run.images[1], run.images[2]);
        if run.events.len() > 2 {
            assert(run.is_step(zeroing, 2));
            if run.events.len() > 3 {
                assert(run.is_step(zeroing, 3));
            }
        }
    }
}

/// The fast path of Windows keeps what an allocation counts on, but for the zeros: the space that
/// it adds may hold anything. With nothing in flight before, the position is where it was and what
/// was written is there, whatever the outcome. A byte that nobody had written may change, but only
/// where the work was done; where it was reported not to be, the file reads as before. Without
/// the privilege no call on the file is made at all.
pub proof fn law_windows_fast_path<E>(
    zeroing: bool,
    run: Run<windows::Preallocation<E>>,
    current_size: u64,
    size: u64,
    image: FileImage,
    outcome: Result<bool, AllocError<E>>,
)
    requires
        is_short(current_size, size, image),
        run.starts(zeroing, windows::Preallocation::CheckPrivilege { current_size, size }, image),
        run.end() == windows::Preallocation::Finished(outcome),
    ensures
        is_fast_path_outcome(false, current_size, size, outcome, image, run.end_image()),
        image.buffered == 0 && current_size == image.contents.len() ==> {
            &&& run.end_image().position == image.position
            &&& image.contents.take(
                kept_len(current_size as nat, image) as int,
            ).is_prefix_of(run.end_image().contents)
            &&& image.is_written() || outcome != Ok::<bool, AllocError<E>>(true)
                ==> image.contents.is_prefix_of(run.end_image().contents)
            &&& outcome == Ok::<bool, AllocError<E>>(false) ==> run.end_image().contents
                == image.contents
        },
        run.events[0] == windows::PreallocationEvent::<E>::PrivilegeChecked(false) ==> {
            &&& outcome == Ok::<bool, AllocError<E>>(false)
            &&& run.events.len() == 1
            &&& image.arrives_as(run.end_image())
        },
        run.events.len() <= 3,
{
    let old = image.contents;
    let end = run.end_image();
    assert(run.events.len() > 0);
    assert(run.is_step(zeroing, 0));
    lemma_arrives_then(image, run.images[1]);
    if image.buffered == 0 {
        lemma_at_rest(image);
    }
    assert(old =~= old.subrange(0, old.len() as int));
    if run.events.len() > 1 {
        let waited = run.images[2];
        let mid = waited.contents;
        assert(run.is_step(zeroing, 1));
        lemma_waits_then(run.images[1], waited);
        assert(image.waits_as(waited));
        assert(mid =~= zero_extended(mid, mid.len()));
        if run.events.len() > 2 {
            assert(run.is_step(zeroing, 2));
            if run.events.len() > 3 {
                assert(run.is_step(zeroing, 3));
            }
        }
        if image.buffered == 0 && current_size == old.len() {
            let kept = old.take(kept_len(current_size as nat, image) as int);
            assert(mid.take(current_size as int) =~= old);
            assert(image.is_written() ==> kept =~= old);
            if is_zero_extension(old, end.contents, size as nat) {
                assert(old =~= end.contents.subrange(0, old.len() as int));
                assert(kept =~= end.contents.subrange(0, kept.len() as int));
            }
        }
    }
}

/// Where there is no fast path, the outcome that stands for it keeps what an allocation counts on
/// without touching the file.
pub proof fn law_no_fast_path<E>(zeroing: bool, current_size: u64, size: u64, image: FileImage)
    requires
        image.buffered <= image.position,
    ensures
        is_fast_path_outcome(
            zeroing,
            current_size,
            size,
            Ok::<bool, AllocError<E>>(false),
            image,
            image,
        ),
{
    assert(image.settled_to(image.buffered) =~= image);
}

} // verus!
