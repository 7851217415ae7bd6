//! Zero fills.

use crate::error::AllocError;
use crate::image::{
    lemma_at_rest, lemma_may_settle_as_is, lemma_settles_then, lemma_zero_filled_twice,
    zero_filled, FileImage,
};
use crate::run::{Machine, Run};
use crate::zero_fill::{ZeroFill, ZeroFillEvent};
use vstd::prelude::*;

verus! {

/// The relation between a zero fill of `from..to` and the file, which held `base` at the start.
pub open spec fn zero_fill_inv<E>(
    base: Seq<u8>,
    from: u64,
    to: u64,
    fill: ZeroFill<E>,
    image: FileImage,
) -> bool {
    match fill {
        ZeroFill::Seek { current_size, target_size } => {
            &&& current_size == from
            &&& target_size == to
            &&& image.contents == base
            &&& image.buffered == 0
        },
        ZeroFill::Write { current_size, target_size, to_write } => {
            &&& fill.wf()
            &&& target_size == to
            &&& from <= current_size
            &&& image.position == current_size
            &&& image.buffered <= current_size - from
            &&& image.contents == zero_filled(base, from as nat, image.settled_end())
        },
        ZeroFill::Flush => {
            &&& image.position == if from < to { to } else { from }
            &&& image.buffered <= image.position - from
            &&& image.contents == zero_filled(base, from as nat, image.settled_end())
        },
        ZeroFill::Finished(Ok(_)) => {
            &&& image.contents == zero_filled(base, from as nat, to as nat)
            &&& image.position == if from < to { to } else { from }
            &&& image.buffered == 0
        },
        ZeroFill::Finished(Err(_)) => forall|contents: Seq<u8>| #[trigger]
            image.may_settle_as(contents) ==> is_partly_filled(base, from, to, contents),
    }
}

/// `contents` is `base` with zeros from `from` up to some point that is not past `to`.
pub open spec fn is_partly_filled(base: Seq<u8>, from: u64, to: u64, contents: Seq<u8>) -> bool {
    exists|mid: nat| mid <= to && contents == #[trigger] zero_filled(base, from as nat, mid)
}

/// Where a zero fill stops, what arrives of the bytes in flight makes the zeros reach further.
pub(crate) proof fn lemma_zero_fill_settles<E>(
    base: Seq<u8>,
    from: u64,
    to: u64,
    fill: ZeroFill<E>,
    image: FileImage,
    contents: Seq<u8>,
)
    requires
        zero_fill_inv(base, from, to, fill, image),
        image.may_settle_as(contents),
    ensures
        is_partly_filled(base, from, to, contents),
{
    match fill {
        ZeroFill::Finished(Ok(_)) => {
            assert(contents == zero_filled(base, from as nat, to as nat));
        },
        ZeroFill::Finished(Err(_)) => {},
        _ => {
            let k = choose|k: nat|
                k <= image.buffered && contents == #[trigger] image.contents_after(k);
            if fill is Seek {
                assert(contents == zero_filled(base, from as nat, 0));
            } else {
                let mid = image.settled_end() + k;
                lemma_zero_filled_twice(base, from as nat, image.settled_end(), mid);
                if mid > to {
                    assert(contents == zero_filled(base, from as nat, 0));
                }
            }
        },
    }
}

/// One step of a zero fill keeps its relation to the file, and the event is one that the machine
/// accepts.
pub(crate) proof fn lemma_zero_fill_step<E>(
    zeroing: bool,
    base: Seq<u8>,
    from: u64,
    to: u64,
    fill: ZeroFill<E>,
    event: ZeroFillEvent<E>,
    before: FileImage,
    after: FileImage,
)
    requires
        zero_fill_inv(base, from, to, fill, before),
        fill.outcome(zeroing, event, before, after),
    ensures
        fill.accepts(event),
        zero_fill_inv(base, from, to, fill.after(event), after),
{
    match (fill, event) {
        (ZeroFill::Seek { .. }, ZeroFillEvent::Sought(Err(_)))
        | (ZeroFill::Write { .. }, ZeroFillEvent::Written(Err(_)))
        | (ZeroFill::Flush, ZeroFillEvent::Flushed(Err(_))) => {
            lemma_settles_then(before, after);
            lemma_at_rest(after);
            lemma_zero_fill_settles(base, from, to, fill, before, after.contents);
        },
        (ZeroFill::Write { .. }, ZeroFillEvent::Written(Ok(n))) => {
            lemma_zero_filled_twice(
                base,
                from as nat,
                before.settled_end(),
                (before.position + n - after.buffered) as nat,
            );
            if n == 0 {
                assert forall|contents: Seq<u8>| #[trigger]
                    after.may_settle_as(contents) implies is_partly_filled(
                    base,
                    from,
                    to,
                    contents,
                ) by {
                    lemma_zero_fill_settles(base, from, to, fill, after, contents);
                }
            }
        },
        (ZeroFill::Flush, ZeroFillEvent::Flushed(Ok(_))) => {
            lemma_zero_filled_twice(base, from as nat, before.settled_end(), before.position);
        },
        (ZeroFill::Seek { .. }, ZeroFillEvent::Sought(Ok(_))) => {
            lemma_at_rest(before);
        },
        _ => {},
    }
}

/// Every state of a zero fill run keeps the relation to the file.
proof fn lemma_zero_fill_run<E>(
    zeroing: bool,
    run: Run<ZeroFill<E>>,
    from: u64,
    to: u64,
    image: FileImage,
    i: int,
)
    requires
        image.buffered == 0,
        run.starts(
            zeroing,
            ZeroFill::Seek { current_size: from, target_size: to },
            image,
        ),
        0 <= i < run.states.len(),
    ensures
        zero_fill_inv(image.contents, from, to, run.states[i], run.images[i]),
    decreases i,
{
    if i > 0 {
        lemma_zero_fill_run(zeroing, run, from, to, image, i - 1);
        assert(run.is_step(zeroing, i - 1));
        lemma_zero_fill_step(
            zeroing,
            image.contents,
            from,
            to,
            run.states[i - 1],
            run.events[i - 1],
            run.images[i - 1],
            run.images[i],
        );
    }
}

/// A zero fill of `from..to` that succeeds leaves zeros there, every other byte as it was, the
/// position at the end of the range, and nothing in flight.
pub proof fn law_zero_fill_fills<E>(
    zeroing: bool,
    run: Run<ZeroFill<E>>,
    from: u64,
    to: u64,
    image: FileImage,
)
    requires
        image.buffered == 0,
        run.starts(
            zeroing,
            ZeroFill::Seek { current_size: from, target_size: to },
            image,
        ),
        run.end() == ZeroFill::<E>::Finished(Ok(())),
    ensures
        run.end_image().contents == zero_filled(image.contents, from as nat, to as nat),
        run.end_image().position == if from < to { to } else { from },
        run.end_image().buffered == 0,
{
    lemma_zero_fill_run(zeroing, run, from, to, image, run.states.len() - 1);
}

/// Wherever a zero fill of `from..to` stops, and whatever part of what it has in flight still
/// arrives, the file holds zeros from `from` up to some point and every other byte as it was.
pub proof fn law_zero_fill_is_interruptible<E>(
    zeroing: bool,
    run: Run<ZeroFill<E>>,
    from: u64,
    to: u64,
    image: FileImage,
    contents: Seq<u8>,
)
    requires
        image.buffered == 0,
        run.starts(
            zeroing,
            ZeroFill::Seek { current_size: from, target_size: to },
            image,
        ),
        run.end_image().may_settle_as(contents),
    ensures
        is_partly_filled(image.contents, from, to, contents),
{
    lemma_zero_fill_run(zeroing, run, from, to, image, run.states.len() - 1);
    lemma_zero_fill_settles(image.contents, from, to, run.end(), run.end_image(), contents);
}

/// A zero fill of an empty range changes no byte and writes none.
pub proof fn law_zero_fill_of_nothing<E>(
    zeroing: bool,
    run: Run<ZeroFill<E>>,
    from: u64,
    to: u64,
    image: FileImage,
    i: int,
)
    requires
        image.buffered == 0,
        from >= to,
        run.starts(
            zeroing,
            ZeroFill::Seek { current_size: from, target_size: to },
            image,
        ),
        0 <= i < run.states.len(),
    ensures
        !(run.states[i] is Write),
        run.images[i].contents == image.contents,
{
    lemma_zero_fill_run(zeroing, run, from, to, image, i);
    lemma_may_settle_as_is(run.images[i]);
}

/// The event is a failure, or a write of no byte, and this is the error that it stands for.
pub open spec fn zero_fill_failure<E>(event: ZeroFillEvent<E>) -> Option<AllocError<E>> {
    match event {
        ZeroFillEvent::Sought(Err(e)) => Some(AllocError::Os(e)),
        ZeroFillEvent::Written(Err(e)) => Some(AllocError::Os(e)),
        ZeroFillEvent::Flushed(Err(e)) => Some(AllocError::Os(e)),
        ZeroFillEvent::Written(Ok(0)) => Some(AllocError::WriteZero),
        _ => None,
    }
}

/// A zero fill fails at the first failure, with the error that it stands for, and only then.
pub proof fn law_zero_fill_fails_at_a_failure<E>(
    zeroing: bool,
    run: Run<ZeroFill<E>>,
    from: u64,
    to: u64,
    image: FileImage,
    i: int,
)
    requires
        image.buffered == 0,
        run.starts(
            zeroing,
            ZeroFill::Seek { current_size: from, target_size: to },
            image,
        ),
        0 <= i < run.events.len(),
    ensures
        match zero_fill_failure(run.events[i]) {
            Some(error) => run.states[i + 1] == ZeroFill::<E>::Finished(Err(error)),
            None => !(run.states[i + 1] matches ZeroFill::Finished(Err(_))),
        },
        zero_fill_failure(run.events[i]) is Some ==> i == run.events.len() - 1,
{
    assert(run.is_step(zeroing, i));
    lemma_zero_fill_run(zeroing, run, from, to, image, i);
    if i + 1 < run.events.len() {
        assert(run.is_step(zeroing, i + 1));
    }
}

/// The number of calls that a zero fill makes at most from this state on.
pub open spec fn zero_fill_rank<E>(fill: ZeroFill<E>) -> nat {
    match fill {
        ZeroFill::Seek { current_size, target_size } => if current_size < target_size {
            (target_size - current_size + 2) as nat
        } else {
            2
        },
        ZeroFill::Write { current_size, target_size, .. } => (target_size - current_size
            + 1) as nat,
        ZeroFill::Flush => 1,
        ZeroFill::Finished(_) => 0,
    }
}

/// A zero fill comes to its end: it makes at most one call for each byte, besides the seek and
/// the flush.
pub proof fn law_zero_fill_ends<E>(
    zeroing: bool,
    run: Run<ZeroFill<E>>,
    from: u64,
    to: u64,
    image: FileImage,
)
    requires
        image.buffered == 0,
        run.starts(
            zeroing,
            ZeroFill::Seek { current_size: from, target_size: to },
            image,
        ),
    ensures
        run.events.len() <= (if from < to { to - from } else { 0 }) + 2,
{
    lemma_zero_fill_rank(zeroing, run, from, to, image, run.events.len() as int);
}

proof fn lemma_zero_fill_rank<E>(
    zeroing: bool,
    run: Run<ZeroFill<E>>,
    from: u64,
    to: u64,
    image: FileImage,
    i: int,
)
    requires
        image.buffered == 0,
        run.starts(
            zeroing,
            ZeroFill::Seek { current_size: from, target_size: to },
            image,
        ),
        0 <= i <= run.events.len(),
    ensures
        i + zero_fill_rank(run.states[i]) <= zero_fill_rank(run.states[0]),
    decreases i,
{
    if i > 0 {
        lemma_zero_fill_rank(zeroing, run, from, to, image, i - 1);
        lemma_zero_fill_run(zeroing, run, from, to, image, i - 1);
        assert(run.is_step(zeroing, i - 1));
    }
}

/// Every event of a zero fill run is one that the machine accepts: with a file that accepts no
/// more bytes than it is offered, the count of bytes never leaves its range.
pub proof fn law_zero_fill_accepts_its_events<E>(
    zeroing: bool,
    run: Run<ZeroFill<E>>,
    from: u64,
    to: u64,
    image: FileImage,
    i: int,
)
    requires
        image.buffered == 0,
        run.starts(
            zeroing,
            ZeroFill::Seek { current_size: from, target_size: to },
            image,
        ),
        0 <= i < run.events.len(),
    ensures
        run.states[i].wf(),
        run.states[i].accepts(run.events[i]),
{
    lemma_zero_fill_run(zeroing, run, from, to, image, i);
    assert(run.is_step(zeroing, i));
    lemma_zero_fill_step(
        zeroing,
        image.contents,
        from,
        to,
        run.states[i],
        run.events[i],
        run.images[i],
        run.images[i + 1],
    );
}

} // verus!
