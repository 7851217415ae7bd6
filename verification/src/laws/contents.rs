//! What the contents of a file are, byte by byte, in the terms in which the other laws speak.

use crate::allocate::is_allocated_image;
use crate::image::{
    is_grown, is_zero_extension, kept_len, resized, zero_extended, zero_filled, FileImage,
};
use vstd::prelude::*;

verus! {

/// Extending with zeros keeps every byte, adds zeros only, and reaches the length asked for.
pub proof fn law_zero_extended_bytes(contents: Seq<u8>, len: nat, i: int)
    ensures
        zero_extended(contents, len).len() >= len,
        zero_extended(contents, len).len() >= contents.len(),
        zero_extended(contents, len).len() == len || zero_extended(contents, len).len()
            == contents.len(),
        0 <= i < contents.len() ==> zero_extended(contents, len)[i] == contents[i],
        contents.len() <= i < len ==> zero_extended(contents, len)[i] == 0,
{
}

/// Filling with zeros makes the bytes of the range zeros, also where there were none, and leaves
/// every other byte as it was.
pub proof fn law_zero_filled_bytes(contents: Seq<u8>, from: nat, to: nat, i: int)
    ensures
        from >= to ==> zero_filled(contents, from, to) == contents,
        from < to ==> zero_filled(contents, from, to).len() >= to,
        zero_filled(contents, from, to).len() >= contents.len(),
        zero_filled(contents, from, to).len() == to || zero_filled(contents, from, to).len()
            == contents.len(),
        from <= i < to ==> zero_filled(contents, from, to)[i] == 0,
        0 <= i < contents.len() && !(from <= i < to) ==> zero_filled(contents, from, to)[i]
            == contents[i],
        contents.len() <= i < from < to ==> zero_filled(contents, from, to)[i] == 0,
{
}

/// A file whose length is set has that length, the bytes that it had below it, and zeros above.
pub proof fn law_resized_bytes(contents: Seq<u8>, len: nat, i: int)
    ensures
        resized(contents, len).len() == len,
        0 <= i < len && i < contents.len() ==> resized(contents, len)[i] == contents[i],
        contents.len() <= i < len ==> resized(contents, len)[i] == 0,
{
}

/// A zero extension has every byte of the old contents, zeros behind them, and does not pass the
/// limit where it has grown; and whatever is so is one.
pub proof fn law_zero_extension_bytes(old: Seq<u8>, contents: Seq<u8>, limit: nat)
    ensures
        is_zero_extension(old, contents, limit) <==> {
            &&& old.len() <= contents.len()
            &&& contents.len() <= old.len() || contents.len() <= limit
            &&& forall|i: int| 0 <= i < old.len() ==> contents[i] == #[trigger] old[i]
            &&& forall|i: int| old.len() <= i < contents.len() ==> #[trigger] contents[i] == 0
        },
{
    let extended = zero_extended(old, contents.len());
    if old.len() <= contents.len() && (forall|i: int|
        0 <= i < old.len() ==> contents[i] == #[trigger] old[i]) && (forall|i: int|
        old.len() <= i < contents.len() ==> #[trigger] contents[i] == 0) {
        assert(contents =~= extended);
    }
}

/// A file is grown to `size` if it has every byte that it had, is as long as asked for or as it
/// was, whichever is longer, and, with `zeroing`, has zeros in its new bytes; and only then.
pub proof fn law_grown_bytes(zeroing: bool, old: Seq<u8>, contents: Seq<u8>, size: nat)
    ensures
        is_grown(zeroing, old, contents, size) <==> {
            &&& contents.len() >= old.len()
            &&& contents.len() >= size
            &&& contents.len() == old.len() || contents.len() == size
            &&& forall|i: int| 0 <= i < old.len() ==> contents[i] == #[trigger] old[i]
            &&& zeroing ==> forall|i: int|
                old.len() <= i < contents.len() ==> #[trigger] contents[i] == 0
        },
{
    if is_grown(zeroing, old, contents, size) {
        assert forall|i: int| 0 <= i < old.len() implies contents[i] == #[trigger] old[i] by {
            assert(contents.subrange(0, old.len() as int)[i] == old[i]);
        }
    }
    if contents.len() >= old.len() && (forall|i: int|
        0 <= i < old.len() ==> contents[i] == #[trigger] old[i]) {
        assert(old =~= contents.subrange(0, old.len() as int));
        if contents.len() >= size && (contents.len() == old.len() || contents.len() == size) && (
        forall|i: int| old.len() <= i < contents.len() ==> #[trigger] contents[i] == 0) {
            assert(contents =~= zero_extended(old, size));
        }
    }
}

/// A file that has been allocated has what was written in it, and the length asked for or its own,
/// with the position where it was or at the size, and nothing in flight. Where the fast path adds
/// zeros, or all of the file had been written, it has every byte that it had; and with zeros added,
/// no others.
pub proof fn law_allocated_bytes(
    zeroing: bool,
    before: FileImage,
    after: FileImage,
    size: nat,
    i: int,
)
    requires
        is_allocated_image(zeroing, before, after, size),
    ensures
        after.contents.len() >= before.contents.len(),
        after.contents.len() >= size,
        after.contents.len() == before.contents.len() || after.contents.len() == size,
        0 <= i < before.contents.len() && (zeroing || i < before.written
            || before.contents.len() <= before.written) ==> after.contents[i]
            == before.contents[i],
        zeroing && before.contents.len() <= i < after.contents.len() ==> after.contents[i] == 0,
        !zeroing && before.contents.len() <= before.written ==> after.contents.len()
            <= after.written,
        after.position == before.position || after.position == size,
        after.buffered == 0,
{
    let kept = before.contents.take(kept_len(before.contents.len(), before) as int);
    if zeroing || before.is_written() {
        law_grown_bytes(zeroing, before.contents, after.contents, size);
        if 0 <= i < before.contents.len() {
            assert(after.contents[i] == before.contents[i]);
        }
    }
    if 0 <= i < kept.len() {
        assert(after.contents.subrange(0, kept.len() as int)[i] == kept[i]);
    }
}

/// What is kept in any case is what has been written, up to the length that was read.
pub proof fn law_kept_is_what_was_written(current_size: nat, image: FileImage, i: int)
    ensures
        0 <= i < kept_len(current_size, image) <==> 0 <= i < current_size && i < image.written,
{
}

} // verus!
