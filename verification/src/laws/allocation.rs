//! Allocations.

use crate::allocate::{is_allocated_image, Allocation, AllocationEvent};
use crate::error::AllocError;
use crate::image::{
    is_fast_path_effect, is_grown, is_partly_grown, is_zero_extension, kept_len,
    lemma_arrives_then, lemma_at_rest, lemma_extend_filled, lemma_extension_of_extension,
    lemma_first_attempt, lemma_grown_settles_as_extension, lemma_may_settle_as_is,
    lemma_partly_grown_to_size, lemma_settles_then, lemma_waits_then,
    lemma_zero_fill_of_extension, settles_as_extension, zero_extended, zero_filled, FileImage,
};
use crate::laws::zero_fill::{
    lemma_zero_fill_settles, lemma_zero_fill_step, zero_fill_failure, zero_fill_inv, zero_fill_rank,
};
use crate::run::{Machine, Run};
use crate::zero_fill::ZeroFill;
use vstd::prelude::*;

verus! {

/// The relation between an allocation of `size` bytes and the file, which held `old` before it or
/// an earlier one that was interrupted.
pub open spec fn allocation_inv<E>(
    zeroing: bool,
    old: Seq<u8>,
    size: u64,
    allocation: Allocation<E>,
    image: FileImage,
) -> bool {
    &&& is_partly_grown(zeroing, old, size as nat, image)
    &&& match allocation {
        Allocation::ReadLength { size: wanted } => wanted == size,
        Allocation::TryFastPreallocate { current_size, size: wanted } => {
            &&& wanted == size
            &&& is_found_short(old, size, current_size, image)
        },
        Allocation::ZeroFill(ZeroFill::Seek { current_size, target_size }) => {
            &&& target_size == size
            &&& is_found_short(old, size, current_size, image)
        },
        Allocation::ZeroFill(fill) => {
            &&& !(fill is Finished)
            &&& exists|base: Seq<u8>, from: u64|
                #![trigger zero_fill_inv(base, from, size, fill, image)]
                {
                    &&& is_zero_extension(old, base, size as nat)
                    &&& old.len() <= from <= base.len()
                    &&& from < size
                    &&& zero_fill_inv(base, from, size, fill, image)
                }
        },
        Allocation::Finished(Ok(_)) => image.contents.len() >= size,
        Allocation::Finished(Err(_)) => true,
    }
}

/// The length `current_size`, which is too short, was read of the file: it holds `old` and zeros,
/// and is no shorter than what was read.
pub open spec fn is_found_short(
    old: Seq<u8>,
    size: u64,
    current_size: u64,
    image: FileImage,
) -> bool {
    &&& settles_as_extension(old, size as nat, image)
    &&& current_size < size
    &&& old.len() <= current_size <= image.contents.len()
}

/// One step of an allocation keeps its relation to the file, and the event is one that the
/// machine accepts.
pub(crate) proof fn lemma_allocation_step<E>(
    zeroing: bool,
    old: Seq<u8>,
    size: u64,
    allocation: Allocation<E>,
    event: AllocationEvent<E>,
    before: FileImage,
    after: FileImage,
)
    requires
        allocation_inv(zeroing, old, size, allocation, before),
        allocation.outcome(zeroing, event, before, after),
    ensures
        allocation.wf(),
        allocation.accepts(event),
        allocation_inv(zeroing, old, size, allocation.after(event), after),
{
    lemma_may_settle_as_is(before);
    match (allocation, event) {
        (Allocation::ReadLength { .. }, _) => {
            lemma_arrives_then(before, after);
            if before.buffered == 0 {
                lemma_at_rest(before);
            }
        },
        (Allocation::TryFastPreallocate { current_size, .. }, AllocationEvent::Preallocated(r)) => {
            let done = r == Ok::<bool, AllocError<E>>(true);
            if !done && before.arrives_as(after) {
                lemma_arrives_then(before, after);
            } else {
                lemma_fast_path_step(zeroing, old, size, current_size, done, before, after);
            }
        },
        (Allocation::ZeroFill(ZeroFill::Seek { current_size, .. }), _) => {
            lemma_settles_then(before, after);
            lemma_at_rest(after);
            let from = current_size;
            let fill = ZeroFill::<E>::writing(current_size, size);
            if allocation.after(event) == Allocation::ZeroFill(fill) {
                assert(zero_fill_inv(after.contents, from, size, fill, after));
            }
        },
        (Allocation::ZeroFill(fill), AllocationEvent::ZeroFill(event)) => {
            let (base, from) = choose|base: Seq<u8>, from: u64|
                #![trigger zero_fill_inv(base, from, size, fill, before)]
                {
                    &&& is_zero_extension(old, base, size as nat)
                    &&& old.len() <= from <= base.len()
                    &&& from < size
                    &&& zero_fill_inv(base, from, size, fill, before)
                };
            let next = fill.after(event);
            lemma_zero_fill_step(zeroing, base, from, size, fill, event, before, after);
            lemma_filling_is_extension(old, base, from, size, next, after);
            if next matches ZeroFill::Finished(Ok(_)) {
                lemma_zero_fill_of_extension(old, base, from as nat, size as nat, size as nat);
            } else if !(next is Finished) {
                assert(zero_fill_inv(base, from, size, next, after));
            }
        },
        _ => {},
    }
}

/// A fast path that has waited leaves the file grown, if it did its work, and partly grown if not.
proof fn lemma_fast_path_step(
    zeroing: bool,
    old: Seq<u8>,
    size: u64,
    current_size: u64,
    done: bool,
    before: FileImage,
    after: FileImage,
)
    requires
        is_partly_grown(zeroing, old, size as nat, before),
        is_found_short(old, size, current_size, before),
        exists|waited: FileImage|
            {
                &&& #[trigger] before.waits_as(waited)
                &&& is_fast_path_effect(
                    zeroing,
                    current_size as nat,
                    size as nat,
                    done,
                    waited,
                    after,
                )
            },
    ensures
        is_partly_grown(zeroing, old, size as nat, after),
        done ==> after.contents.len() >= size,
        !done ==> settles_as_extension(old, size as nat, after),
        !done ==> after.contents.len() >= current_size,
{
    let waited = choose|waited: FileImage|
        {
            &&& #[trigger] before.waits_as(waited)
            &&& is_fast_path_effect(
                zeroing,
                current_size as nat,
                size as nat,
                done,
                waited,
                after,
            )
        };
    let mid = waited.contents;
    lemma_waits_then(before, waited);
    lemma_at_rest(after);
    if done {
        if zeroing {
            assert(after.contents =~= zero_extended(old, after.contents.len()));
        } else {
            let kept = mid.take(kept_len(current_size as nat, waited) as int);
            assert(old =~= after.contents.subrange(0, old.len() as int)) by {
                assert forall|i: int| 0 <= i < old.len() implies old[i] == after.contents[i] by {
                    assert(kept[i] == after.contents.subrange(0, kept.len() as int)[i]);
                }
            }
        }
    } else {
        lemma_extension_of_extension(
            old,
            mid,
            after.contents,
            current_size as nat,
            size as nat,
        );
    }
}

/// A zero fill within the zeros behind `old` leaves `old` followed by zeros, whatever becomes of
/// the bytes in flight.
proof fn lemma_filling_is_extension<E>(
    old: Seq<u8>,
    base: Seq<u8>,
    from: u64,
    size: u64,
    fill: ZeroFill<E>,
    image: FileImage,
)
    requires
        is_zero_extension(old, base, size as nat),
        old.len() <= from <= base.len(),
        zero_fill_inv(base, from, size, fill, image),
    ensures
        settles_as_extension(old, size as nat, image),
{
    assert forall|contents: Seq<u8>| #[trigger]
        image.may_settle_as(contents) implies is_zero_extension(old, contents, size as nat) by {
        lemma_zero_fill_settles(base, from, size, fill, image, contents);
        let mid = choose|mid: nat|
            mid <= size && contents == #[trigger] zero_filled(base, from as nat, mid);
        lemma_zero_fill_of_extension(old, base, from as nat, mid, size as nat);
    }
}

/// A run of an allocation of `size` bytes on the file `image`, which has nothing in flight.
pub open spec fn is_allocation<E>(
    zeroing: bool,
    run: Run<Allocation<E>>,
    size: u64,
    image: FileImage,
) -> bool {
    &&& image.buffered == 0
    &&& run.starts(zeroing, Allocation::ReadLength { size }, image)
}

/// A run of an allocation of `size` bytes on the file `image`, which held `old` before the first
/// attempt at it. Earlier attempts may have left bytes in flight. For a first attempt, see
/// [`lemma_first_attempt`]. Where the fast path adds other bytes than zeros and the file ends in
/// zeros that nobody has written, `old` is what comes before them.
pub open spec fn is_attempt<E>(
    zeroing: bool,
    run: Run<Allocation<E>>,
    old: Seq<u8>,
    size: u64,
    image: FileImage,
) -> bool {
    &&& is_partly_grown(zeroing, old, size as nat, image)
    &&& run.starts(zeroing, Allocation::ReadLength { size }, image)
}

/// `left` is what the file may be some time after the run stopped where it did. Of the bytes in
/// flight, some may have arrived and the others be in flight still, or be lost. A fast path that
/// was under way may have come to some outcome.
///
/// A fast path that is abandoned runs on. Where it has not ended yet, what it still does is no
/// part of `left`; see [`is_disturbed_run`].
pub open spec fn is_left<E>(
    zeroing: bool,
    run: Run<Allocation<E>>,
    left: FileImage,
) -> bool {
    ||| run.end_image().arrives_as(left)
    ||| run.end_image().settles_as(left)
    ||| run.end() is TryFastPreallocate && exists|event: AllocationEvent<E>| #[trigger]
        run.end().outcome(zeroing, event, run.end_image(), left)
}

/// Every state of an attempt keeps the relation to the file.
pub(crate) proof fn lemma_allocation_run<E>(
    zeroing: bool,
    run: Run<Allocation<E>>,
    old: Seq<u8>,
    size: u64,
    image: FileImage,
    i: int,
)
    requires
        is_attempt(zeroing, run, old, size, image),
        0 <= i < run.states.len(),
    ensures
        allocation_inv(zeroing, old, size, run.states[i], run.images[i]),
    decreases i,
{
    if i > 0 {
        lemma_allocation_run(zeroing, run, old, size, image, i - 1);
        assert(run.is_step(zeroing, i - 1));
        lemma_allocation_step(
            zeroing,
            old,
            size,
            run.states[i - 1],
            run.events[i - 1],
            run.images[i - 1],
            run.images[i],
        );
    }
}

/// What more is known of an allocation that began on the file `start` with nothing in flight: up
/// to the fast path the file is as it was. At the end nothing is in flight. Where the fast path
/// adds other bytes than zeros, the file, which had been written in full, has been up to where the
/// zero fill has come, and at the end in full again.
spec fn at_rest_inv<E>(
    zeroing: bool,
    size: u64,
    start: FileImage,
    allocation: Allocation<E>,
    image: FileImage,
) -> bool {
    match allocation {
        Allocation::ReadLength { .. } => image == start,
        Allocation::TryFastPreallocate { current_size, .. } => {
            &&& image == start
            &&& current_size == start.contents.len()
        },
        Allocation::ZeroFill(ZeroFill::Seek { current_size, .. }) => {
            &&& current_size == start.contents.len()
            &&& !zeroing ==> current_size <= image.written
        },
        Allocation::ZeroFill(ZeroFill::Write { .. }) | Allocation::ZeroFill(ZeroFill::Flush) =>
            !zeroing ==> image.settled_end() <= image.written,
        Allocation::Finished(Ok(_)) => {
            &&& image.buffered == 0
            &&& image.position == start.position || image.position == size
            &&& !zeroing ==> image.is_written()
        },
        _ => true,
    }
}

proof fn lemma_at_rest_run<E>(
    zeroing: bool,
    run: Run<Allocation<E>>,
    size: u64,
    image: FileImage,
    i: int,
)
    requires
        is_allocation(zeroing, run, size, image),
        zeroing || image.is_written(),
        0 <= i < run.states.len(),
    ensures
        at_rest_inv(zeroing, size, image, run.states[i], run.images[i]),
    decreases i,
{
    lemma_at_rest(image);
    if i > 0 {
        let before = run.images[i - 1];
        let after = run.images[i];
        lemma_at_rest_run(zeroing, run, size, image, i - 1);
        lemma_first_attempt(zeroing, size as nat, image);
        lemma_allocation_run(zeroing, run, image.contents, size, image, i - 1);
        lemma_allocation_run(zeroing, run, image.contents, size, image, i);
        assert(run.is_step(zeroing, i - 1));
        lemma_may_settle_as_is(after);
        if run.states[i - 1] matches Allocation::ZeroFill(ZeroFill::Seek { .. }) {
            lemma_settles_then(before, after);
        }
    }
}

/// An allocation that succeeds leaves a file that starts with what was in it and that is `size`
/// bytes long, or as long as it was if it was longer. With a fast path that adds zeros, the added
/// bytes are zeros; with another, the file has to have been written in full, and has been so again
/// at the end. Nothing is left in flight. The position is where it was or the new end of the file.
pub proof fn law_allocation_grows<E>(
    zeroing: bool,
    run: Run<Allocation<E>>,
    size: u64,
    image: FileImage,
)
    requires
        is_allocation(zeroing, run, size, image),
        zeroing || image.is_written(),
        run.end() == Allocation::<E>::Finished(Ok(())),
    ensures
        is_grown(zeroing, image.contents, run.end_image().contents, size as nat),
        run.end_image().buffered == 0,
        !zeroing ==> run.end_image().is_written(),
        run.end_image().position == image.position || run.end_image().position == size,
{
    let old = image.contents;
    let end = run.end_image();
    lemma_at_rest_run(zeroing, run, size, image, run.states.len() - 1);
    lemma_first_attempt(zeroing, size as nat, image);
    lemma_allocation_run(zeroing, run, old, size, image, run.states.len() - 1);
    lemma_may_settle_as_is(end);
    lemma_partly_grown_to_size(zeroing, old, size as nat, end, end.contents);
}

/// Where the fast path did not do the work, an allocation that succeeds has added zeros only,
/// whatever the fast path of the platform adds. The position is then the new end of the file, or
/// where it was if the file was long enough.
pub proof fn law_allocation_without_fast_path_adds_zeros<E>(
    zeroing: bool,
    run: Run<Allocation<E>>,
    size: u64,
    image: FileImage,
)
    requires
        is_allocation(zeroing, run, size, image),
        run.end() == Allocation::<E>::Finished(Ok(())),
        !run.events.contains(AllocationEvent::Preallocated(Ok(true))),
    ensures
        run.end_image().contents == zero_extended(image.contents, size as nat),
        run.end_image().position == if image.contents.len() < size {
            size as nat
        } else {
            image.position
        },
{
    assert forall|i: int| 0 <= i < run.events.len() implies #[trigger] run.is_step(true, i) by {
        assert(run.is_step(zeroing, i));
        assert(run.events[i] != AllocationEvent::<E>::Preallocated(Ok(true)));
    }
    law_allocation_grows(true, run, size, image);
    let last = run.events.len() - 1;
    lemma_at_rest(image);
    lemma_first_attempt(true, size as nat, image);
    assert(run.is_step(true, 0));
    assert(run.is_step(true, last));
    assert(run.events[last] != AllocationEvent::<E>::Preallocated(Ok(true)));
    lemma_allocation_run(true, run, image.contents, size, image, last);
    if image.contents.len() >= size {
        law_allocation_leaves_a_long_file(true, run, size, image, last + 1);
    } else {
        lemma_at_rest_run(true, run, size, image, last);
        assert(run.states[last] == Allocation::<E>::ZeroFill(ZeroFill::Flush));
    }
}

/// Where the fast path did the work, the allocation has succeeded with it: only the length was
/// read before, no seek, write or flush was made, and the position is where it was.
pub proof fn law_fast_path_ends_the_allocation<E>(
    zeroing: bool,
    run: Run<Allocation<E>>,
    size: u64,
    image: FileImage,
    i: int,
)
    requires
        is_allocation(zeroing, run, size, image),
        0 <= i < run.events.len(),
        run.events[i] == AllocationEvent::<E>::Preallocated(Ok(true)),
    ensures
        i == 1,
        run.events.len() == 2,
        run.states[1] == (Allocation::<E>::TryFastPreallocate {
            current_size: image.contents.len() as u64,
            size,
        }),
        run.end() == Allocation::<E>::Finished(Ok(())),
        run.end_image().position == image.position,
{
    lemma_at_rest(image);
    assert(run.is_step(zeroing, 0));
    assert(run.is_step(zeroing, i));
    if run.events.len() > 1 {
        assert(run.is_step(zeroing, 1));
        if run.events.len() > 2 {
            assert(run.is_step(zeroing, 2));
            lemma_no_way_back(zeroing, run, size, image, i);
        }
    }
}

/// The fast path is asked for at the second call only.
proof fn lemma_no_way_back<E>(
    zeroing: bool,
    run: Run<Allocation<E>>,
    size: u64,
    image: FileImage,
    i: int,
)
    requires
        is_allocation(zeroing, run, size, image),
        0 <= i < run.states.len(),
    ensures
        run.states[i] is TryFastPreallocate ==> i == 1,
        run.states[i] is ReadLength ==> i == 0,
    decreases i,
{
    if i > 0 {
        lemma_no_way_back(zeroing, run, size, image, i - 1);
        assert(run.is_step(zeroing, i - 1));
    }
}

/// What [`FileAlloc`](crate::allocate::FileAlloc) promises of a file holds of every run that has
/// ended, whatever the fast path adds and whether or not the file has been written in full: an
/// allocation that succeeds keeps what has been written and reaches `size`, and one that fails has
/// at most appended zeros.
pub proof fn law_allocation_keeps_what_was_written<E>(
    zeroing: bool,
    run: Run<Allocation<E>>,
    size: u64,
    image: FileImage,
)
    requires
        is_allocation(zeroing, run, size, image),
        run.end() is Finished,
    ensures
        match run.end() {
            Allocation::Finished(Ok(_)) => is_allocated_image(
                zeroing,
                image,
                run.end_image(),
                size as nat,
            ),
            _ => is_zero_extension(image.contents, run.end_image().contents, size as nat),
        },
{
    let done = AllocationEvent::<E>::Preallocated(Ok(true));
    let kept = image.contents.take(kept_len(image.contents.len(), image) as int);
    let end = run.end_image();
    if (zeroing || image.is_written()) && run.end() == Allocation::<E>::Finished(Ok(())) {
        law_allocation_grows(zeroing, run, size, image);
    }
    if run.events.contains(done) {
        let i = choose|i: int| 0 <= i < run.events.len() && run.events[i] == done;
        law_fast_path_ends_the_allocation(zeroing, run, size, image, i);
        lemma_at_rest(image);
        assert(run.is_step(zeroing, 0));
        assert(run.is_step(zeroing, 1));
    } else {
        assert forall|i: int| 0 <= i < run.events.len() implies #[trigger] run.is_step(
            true,
            i,
        ) by {
            assert(run.is_step(zeroing, i));
            assert(run.events[i] != done);
        }
        lemma_first_attempt(true, size as nat, image);
        lemma_may_settle_as_is(end);
        match run.end() {
            Allocation::Finished(Ok(unit)) => {
                assert(unit == ());
                law_allocation_grows(true, run, size, image);
                assert(kept =~= end.contents.subrange(0, kept.len() as int));
            },
            _ => {
                lemma_allocation_run(true, run, image.contents, size, image, run.states.len() - 1);
            },
        }
    }
}

/// An allocation may be interrupted at any time, whether it is a first attempt or a later one. The
/// file starts with what was in it, is no longer than asked for where it has grown, and, with a
/// fast path that adds zeros, has zeros in its new bytes. It is one on which the allocation can be
/// attempted again.
pub proof fn law_allocation_is_interruptible<E>(
    zeroing: bool,
    run: Run<Allocation<E>>,
    old: Seq<u8>,
    size: u64,
    image: FileImage,
    left: FileImage,
)
    requires
        is_attempt(zeroing, run, old, size, image),
        is_left(zeroing, run, left),
    ensures
        is_partly_grown(zeroing, old, size as nat, left),
        old.is_prefix_of(left.contents),
        old.len() < left.contents.len() ==> left.contents.len() <= size,
        zeroing ==> is_zero_extension(old, left.contents, size as nat),
{
    let end = run.end_image();
    lemma_allocation_run(zeroing, run, old, size, image, run.states.len() - 1);
    lemma_may_settle_as_is(left);
    if end.arrives_as(left) {
        lemma_arrives_then(end, left);
        if end.buffered == 0 {
            lemma_at_rest(end);
        }
    } else if end.settles_as(left) {
        lemma_settles_then(end, left);
        lemma_at_rest(left);
        if end.buffered == 0 {
            lemma_at_rest(end);
        }
    } else {
        let event = choose|event: AllocationEvent<E>| #[trigger]
            run.end().outcome(zeroing, event, end, left);
        lemma_allocation_step(zeroing, old, size, run.end(), event, end, left);
    }
    if is_zero_extension(old, left.contents, size as nat) {
        assert(old =~= left.contents.subrange(0, old.len() as int));
    }
}

/// An attempt that succeeds, be it the first or one after any number of interrupted ones that left
/// bytes in flight, leaves the file as one allocation would have, whatever becomes of what is
/// still in flight.
pub proof fn law_attempt_grows<E>(
    zeroing: bool,
    run: Run<Allocation<E>>,
    old: Seq<u8>,
    size: u64,
    image: FileImage,
    contents: Seq<u8>,
)
    requires
        is_attempt(zeroing, run, old, size, image),
        run.end() == Allocation::<E>::Finished(Ok(())),
        run.end_image().may_settle_as(contents),
    ensures
        is_grown(zeroing, old, contents, size as nat),
        is_grown(zeroing, old, run.end_image().contents, size as nat),
{
    let end = run.end_image();
    lemma_allocation_run(zeroing, run, old, size, image, run.states.len() - 1);
    lemma_may_settle_as_is(end);
    lemma_partly_grown_to_size(zeroing, old, size as nat, end, contents);
    lemma_partly_grown_to_size(zeroing, old, size as nat, end, end.contents);
}

/// An allocation that was interrupted, or that failed, can be made again, with its bytes in flight:
/// once it succeeds, the file is as one allocation would have left it, whatever becomes of what is
/// still in flight.
///
/// A fast path that the first one abandoned has ended here before the second one begins. Where it
/// only appends zeros it may run on beside the second one, by
/// [`law_allocation_resumes_beside_a_fast_path`]. That of Windows may not: it may still cut the
/// file back to its old length.
pub proof fn law_allocation_resumes<E>(
    zeroing: bool,
    interrupted: Run<Allocation<E>>,
    again: Run<Allocation<E>>,
    size: u64,
    image: FileImage,
    left: FileImage,
    contents: Seq<u8>,
)
    requires
        is_allocation(zeroing, interrupted, size, image),
        zeroing || image.is_written(),
        is_left(zeroing, interrupted, left),
        again.starts(zeroing, Allocation::ReadLength { size }, left),
        again.end() == Allocation::<E>::Finished(Ok(())),
        again.end_image().may_settle_as(contents),
    ensures
        is_grown(zeroing, image.contents, contents, size as nat),
        is_grown(zeroing, image.contents, again.end_image().contents, size as nat),
{
    let old = image.contents;
    lemma_first_attempt(zeroing, size as nat, image);
    law_allocation_is_interruptible(zeroing, interrupted, old, size, image, left);
    law_attempt_grows(zeroing, again, old, size, left, contents);
}

/// A run of an allocation beside other hands that append zeros to the file, up to `size` bytes at
/// most: between the calls, each image of the run may turn into the one in `disturbed`. So acts a
/// fast path of the same size that an earlier attempt abandoned, if it is one that only appends
/// zeros. An abandoned task of Windows is none: it may expose other bytes, and cut the file back.
pub open spec fn is_disturbed_run<E>(
    run: Run<Allocation<E>>,
    disturbed: Seq<FileImage>,
    size: u64,
    image: FileImage,
) -> bool {
    &&& run.states.len() == run.events.len() + 1
    &&& run.images.len() == run.states.len()
    &&& disturbed.len() == run.states.len()
    &&& run.states[0] == Allocation::<E>::ReadLength { size }
    &&& run.images[0] == image
    &&& forall|i: int|
        0 <= i < run.states.len() ==> (#[trigger] run.images[i]).grows_as(
            disturbed[i],
            size as nat,
        )
    &&& forall|i: int|
        0 <= i < run.events.len() ==> {
            &&& run.states[i + 1] == run.states[i].after(#[trigger] run.events[i])
            &&& run.states[i].outcome(true, run.events[i], disturbed[i], run.images[i + 1])
        }
}

/// A run as in [`is_disturbed_run`], on a file which held `old` before the first attempt.
pub open spec fn is_disturbed_attempt<E>(
    run: Run<Allocation<E>>,
    disturbed: Seq<FileImage>,
    old: Seq<u8>,
    size: u64,
    image: FileImage,
) -> bool {
    &&& is_partly_grown(true, old, size as nat, image)
    &&& is_disturbed_run(run, disturbed, size, image)
}

/// Zeros appended by other hands keep the relation between an allocation and the file.
proof fn lemma_grown_beside<E>(
    old: Seq<u8>,
    size: u64,
    allocation: Allocation<E>,
    image: FileImage,
    after: FileImage,
)
    requires
        allocation_inv(true, old, size, allocation, image),
        image.grows_as(after, size as nat),
    ensures
        allocation_inv(true, old, size, allocation, after),
{
    lemma_grown_settles_as_extension(old, size as nat, image, after);
    match allocation {
        Allocation::ZeroFill(ZeroFill::Seek { .. }) => {},
        Allocation::ZeroFill(fill) => {
            let (base, from) = choose|base: Seq<u8>, from: u64|
                #![trigger zero_fill_inv(base, from, size, fill, image)]
                {
                    &&& is_zero_extension(old, base, size as nat)
                    &&& old.len() <= from <= base.len()
                    &&& from < size
                    &&& zero_fill_inv(base, from, size, fill, image)
                };
            let len = after.contents.len();
            let grown = zero_extended(base, len);
            lemma_extend_filled(base, from as nat, image.settled_end(), len);
            assert(grown =~= zero_extended(old, grown.len()));
            assert(zero_fill_inv(grown, from, size, fill, after));
        },
        _ => {},
    }
}

/// The same beside other hands that append zeros.
pub(crate) proof fn lemma_disturbed_run<E>(
    run: Run<Allocation<E>>,
    disturbed: Seq<FileImage>,
    old: Seq<u8>,
    size: u64,
    image: FileImage,
    i: int,
)
    requires
        is_disturbed_attempt(run, disturbed, old, size, image),
        0 <= i < run.states.len(),
    ensures
        allocation_inv(true, old, size, run.states[i], run.images[i]),
        allocation_inv(true, old, size, run.states[i], disturbed[i]),
    decreases i,
{
    if i > 0 {
        lemma_disturbed_run(run, disturbed, old, size, image, i - 1);
        assert(run.states[i] == run.states[i - 1].after(run.events[i - 1]));
        lemma_allocation_step(
            true,
            old,
            size,
            run.states[i - 1],
            run.events[i - 1],
            disturbed[i - 1],
            run.images[i],
        );
    }
    assert(run.images[i].grows_as(disturbed[i], size as nat));
    lemma_grown_beside(old, size, run.states[i], run.images[i], disturbed[i]);
}

/// Beside other hands that append zeros, an attempt keeps in every state what an interrupted
/// allocation keeps, its events are accepted, and where it has succeeded the file is as one
/// allocation would have left it, whatever becomes of what is still in flight.
pub proof fn law_disturbed_attempt_grows<E>(
    run: Run<Allocation<E>>,
    disturbed: Seq<FileImage>,
    old: Seq<u8>,
    size: u64,
    image: FileImage,
    i: int,
    contents: Seq<u8>,
)
    requires
        is_disturbed_attempt(run, disturbed, old, size, image),
        0 <= i < run.states.len(),
        disturbed[i].may_settle_as(contents),
    ensures
        is_partly_grown(true, old, size as nat, disturbed[i]),
        is_zero_extension(old, contents, size as nat),
        i < run.events.len() ==> run.states[i].wf() && run.states[i].accepts(run.events[i]),
        run.states[i] == Allocation::<E>::Finished(Ok(())) ==> is_grown(
            true,
            old,
            contents,
            size as nat,
        ),
{
    lemma_disturbed_run(run, disturbed, old, size, image, i);
    if i < run.events.len() {
        assert(run.states[i + 1] == run.states[i].after(run.events[i]));
        lemma_allocation_step(
            true,
            old,
            size,
            run.states[i],
            run.events[i],
            disturbed[i],
            run.images[i + 1],
        );
    }
    if run.states[i] == Allocation::<E>::Finished(Ok(())) {
        lemma_partly_grown_to_size(true, old, size as nat, disturbed[i], contents);
    }
}

/// With a fast path that only appends zeros, an allocation that was interrupted, or that failed,
/// can be made again at once, while the fast path that it abandoned still runs: once the second
/// one succeeds, the file is as one allocation would have left it, whatever becomes of what is
/// still in flight and whatever the abandoned fast path still does.
pub proof fn law_allocation_resumes_beside_a_fast_path<E>(
    interrupted: Run<Allocation<E>>,
    again: Run<Allocation<E>>,
    disturbed: Seq<FileImage>,
    size: u64,
    image: FileImage,
    left: FileImage,
    contents: Seq<u8>,
)
    requires
        is_allocation(true, interrupted, size, image),
        is_left(true, interrupted, left),
        is_disturbed_run(again, disturbed, size, left),
        again.end() == Allocation::<E>::Finished(Ok(())),
        disturbed.last().may_settle_as(contents),
    ensures
        is_grown(true, image.contents, contents, size as nat),
        is_grown(true, image.contents, disturbed.last().contents, size as nat),
{
    let old = image.contents;
    let last = again.states.len() - 1;
    lemma_first_attempt(true, size as nat, image);
    law_allocation_is_interruptible(true, interrupted, old, size, image, left);
    lemma_may_settle_as_is(disturbed.last());
    law_disturbed_attempt_grows(again, disturbed, old, size, left, last, contents);
    law_disturbed_attempt_grows(
        again,
        disturbed,
        old,
        size,
        left,
        last,
        disturbed.last().contents,
    );
}

/// A file grown to one size and then to a larger one is grown to that.
proof fn lemma_grown_twice(
    zeroing: bool,
    old: Seq<u8>,
    mid: Seq<u8>,
    contents: Seq<u8>,
    size: nat,
)
    requires
        old.is_prefix_of(mid),
        old.len() < mid.len() ==> mid.len() <= size,
        zeroing ==> mid == zero_extended(old, mid.len()),
        is_grown(zeroing, mid, contents, size),
    ensures
        is_grown(zeroing, old, contents, size),
{
    assert(old =~= contents.subrange(0, old.len() as int)) by {
        assert forall|i: int| 0 <= i < old.len() implies old[i] == contents[i] by {
            assert(old[i] == mid.subrange(0, old.len() as int)[i]);
            assert(mid[i] == contents.subrange(0, mid.len() as int)[i]);
        }
    }
    if zeroing {
        assert(contents =~= zero_extended(old, size));
    }
}

/// A file that is long enough is left as it is: the only call is the one that reads its length,
/// the file is the same in every state, and the allocation succeeds unless that call fails.
pub proof fn law_allocation_leaves_a_long_file<E>(
    zeroing: bool,
    run: Run<Allocation<E>>,
    size: u64,
    image: FileImage,
    i: int,
)
    requires
        is_allocation(zeroing, run, size, image),
        image.contents.len() >= size,
        0 <= i < run.states.len(),
    ensures
        run.events.len() <= 1,
        run.images[i] == image,
        i == 1 ==> match run.events[0] {
            AllocationEvent::LengthRead(Err(e)) => run.states[1] == Allocation::<E>::Finished(
                Err(AllocError::Os(e)),
            ),
            _ => run.states[1] == Allocation::<E>::Finished(Ok(())),
        },
{
    lemma_at_rest(image);
    if run.events.len() > 0 {
        assert(run.is_step(zeroing, 0));
        if run.events.len() > 1 {
            assert(run.is_step(zeroing, 1));
        }
    }
}

/// After an allocation of `first` bytes that succeeded, one of `second` bytes that succeeds too
/// leaves the file as one allocation of the larger size would have. Where `second` is no larger,
/// it changes nothing.
pub proof fn law_allocation_in_steps<E>(
    zeroing: bool,
    run1: Run<Allocation<E>>,
    run2: Run<Allocation<E>>,
    first: u64,
    second: u64,
    image: FileImage,
)
    requires
        is_allocation(zeroing, run1, first, image),
        zeroing || image.is_written(),
        run1.end() == Allocation::<E>::Finished(Ok(())),
        is_allocation(zeroing, run2, second, run1.end_image()),
        run2.end() == Allocation::<E>::Finished(Ok(())),
    ensures
        is_grown(
            zeroing,
            image.contents,
            run2.end_image().contents,
            (if first < second { second } else { first }) as nat,
        ),
        second <= first ==> run2.end_image() == run1.end_image(),
{
    let old = image.contents;
    let mid = run1.end_image().contents;
    let contents = run2.end_image().contents;
    law_allocation_grows(zeroing, run1, first, image);
    law_allocation_grows(zeroing, run2, second, run1.end_image());
    if second <= first {
        law_allocation_leaves_a_long_file(
            zeroing,
            run2,
            second,
            run1.end_image(),
            run2.states.len() - 1,
        );
    } else {
        if zeroing {
            assert(mid =~= zero_extended(old, mid.len()));
        }
        lemma_grown_twice(zeroing, old, mid, contents, second as nat);
    }
}

/// The event ends an allocation with this error: the length could not be read, or a call of the
/// zero fill failed. What the fast path comes to is never an error.
pub open spec fn allocation_failure<E>(event: AllocationEvent<E>) -> Option<AllocError<E>> {
    match event {
        AllocationEvent::LengthRead(Err(e)) => Some(AllocError::Os(e)),
        AllocationEvent::ZeroFill(event) => zero_fill_failure(event),
        _ => None,
    }
}

/// An attempt fails at the first failure, with the error that it stands for, and only then.
pub proof fn law_allocation_fails_at_a_failure<E>(
    zeroing: bool,
    run: Run<Allocation<E>>,
    old: Seq<u8>,
    size: u64,
    image: FileImage,
    i: int,
)
    requires
        is_attempt(zeroing, run, old, size, image),
        0 <= i < run.events.len(),
    ensures
        match allocation_failure(run.events[i]) {
            Some(error) => run.states[i + 1] == Allocation::<E>::Finished(Err(error)),
            None => !(run.states[i + 1] matches Allocation::Finished(Err(_))),
        },
        allocation_failure(run.events[i]) is Some ==> i == run.events.len() - 1,
{
    assert(run.is_step(zeroing, i));
    lemma_allocation_run(zeroing, run, old, size, image, i);
    if i + 1 < run.events.len() {
        assert(run.is_step(zeroing, i + 1));
    }
}

/// An attempt that has come to its end without a failure has succeeded.
pub proof fn law_allocation_succeeds_without_a_failure<E>(
    zeroing: bool,
    run: Run<Allocation<E>>,
    old: Seq<u8>,
    size: u64,
    image: FileImage,
)
    requires
        is_attempt(zeroing, run, old, size, image),
        run.end() is Finished,
        forall|i: int|
            0 <= i < run.events.len() ==> allocation_failure(#[trigger] run.events[i]) is None,
    ensures
        run.end() == Allocation::<E>::Finished(Ok(())),
{
    let last = run.events.len() - 1;
    law_allocation_fails_at_a_failure(zeroing, run, old, size, image, last);
    assert(allocation_failure(run.events[last]) is None);
    match run.end() {
        Allocation::Finished(Ok(unit)) => {
            assert(unit == ());
        },
        _ => {},
    }
}

/// A fast path that did not do the work, or failed, is followed by a zero fill from the old end
/// of the file to the size asked for.
pub proof fn law_fast_path_falls_back<E>(
    zeroing: bool,
    run: Run<Allocation<E>>,
    size: u64,
    image: FileImage,
    i: int,
)
    requires
        is_allocation(zeroing, run, size, image),
        0 <= i < run.events.len(),
        run.events[i] is Preallocated,
        run.events[i] != AllocationEvent::<E>::Preallocated(Ok(true)),
    ensures
        run.states[i + 1] == Allocation::<E>::ZeroFill(
            ZeroFill::Seek { current_size: image.contents.len() as u64, target_size: size },
        ),
        image.contents.len() < size,
{
    lemma_at_rest(image);
    lemma_no_way_back(zeroing, run, size, image, i);
    assert(run.is_step(zeroing, 0));
    assert(run.is_step(zeroing, i));
}

/// Zeros are written only after the fast path was tried on the file as it was and did not do the
/// work.
pub proof fn law_fast_path_is_tried_first<E>(
    zeroing: bool,
    run: Run<Allocation<E>>,
    size: u64,
    image: FileImage,
    i: int,
)
    requires
        is_allocation(zeroing, run, size, image),
        0 <= i < run.states.len(),
        run.states[i] is ZeroFill,
    ensures
        i >= 2,
        run.states[1] == (Allocation::<E>::TryFastPreallocate {
            current_size: image.contents.len() as u64,
            size,
        }),
        run.images[1] == image,
        run.events[1] is Preallocated,
        run.events[1] != AllocationEvent::<E>::Preallocated(Ok(true)),
{
    lemma_at_rest(image);
    assert(run.events.len() > 0);
    assert(run.is_step(zeroing, 0));
    if run.events.len() > 1 {
        assert(run.is_step(zeroing, 1));
        if run.events.len() > 2 {
            assert(run.is_step(zeroing, 2));
        }
    }
}

/// The number of calls that an allocation makes at most from this state on.
pub open spec fn allocation_rank<E>(allocation: Allocation<E>) -> nat {
    match allocation {
        Allocation::ReadLength { size } => (size + 4) as nat,
        Allocation::TryFastPreallocate { current_size, size } => (size - current_size + 3) as nat,
        Allocation::ZeroFill(fill) => zero_fill_rank(fill),
        Allocation::Finished(_) => 0,
    }
}

/// An attempt comes to its end: it makes at most one call for each byte that is missing,
/// besides those that read the length, try the fast path, seek and flush.
pub proof fn law_allocation_ends<E>(
    zeroing: bool,
    run: Run<Allocation<E>>,
    old: Seq<u8>,
    size: u64,
    image: FileImage,
)
    requires
        is_attempt(zeroing, run, old, size, image),
    ensures
        run.events.len() <= (if image.contents.len() < size {
            size - image.contents.len()
        } else {
            0
        }) + 4,
{
    if run.events.len() > 0 {
        lemma_allocation_rank(zeroing, run, old, size, image, run.events.len() as int);
        assert(run.is_step(zeroing, 0));
    }
}

proof fn lemma_allocation_rank<E>(
    zeroing: bool,
    run: Run<Allocation<E>>,
    old: Seq<u8>,
    size: u64,
    image: FileImage,
    i: int,
)
    requires
        is_attempt(zeroing, run, old, size, image),
        1 <= i <= run.events.len(),
    ensures
        i + allocation_rank(run.states[i]) <= 1 + allocation_rank(run.states[1]),
    decreases i,
{
    if i > 1 {
        lemma_allocation_rank(zeroing, run, old, size, image, i - 1);
        lemma_allocation_run(zeroing, run, old, size, image, i - 1);
        assert(run.is_step(zeroing, i - 1));
    }
}

/// Every event of an attempt is one that the machine accepts.
pub proof fn law_allocation_accepts_its_events<E>(
    zeroing: bool,
    run: Run<Allocation<E>>,
    old: Seq<u8>,
    size: u64,
    image: FileImage,
    i: int,
)
    requires
        is_attempt(zeroing, run, old, size, image),
        0 <= i < run.events.len(),
    ensures
        run.states[i].wf(),
        run.states[i].accepts(run.events[i]),
{
    lemma_allocation_run(zeroing, run, old, size, image, i);
    assert(run.is_step(zeroing, i));
    lemma_allocation_step(
        zeroing,
        old,
        size,
        run.states[i],
        run.events[i],
        run.images[i],
        run.images[i + 1],
    );
}

} // verus!
