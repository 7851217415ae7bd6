//! What a file holds, and how the calls on it change that.

use vstd::prelude::*;

verus! {

/// A file as the calls on one open handle see it.
///
/// A write may be accepted before its bytes have arrived in the file. The last `buffered` bytes
/// before `position` are of that kind: zeros that the file has accepted and that may still be
/// missing from `contents`.
///
/// A file may be longer than what was ever written to it: a call may have set its length. The
/// bytes before `written` have been written, or a write past them has filled them in.
#[verifier::ext_equal]
pub struct FileImage {
    pub contents: Seq<u8>,
    pub position: nat,
    pub buffered: nat,
    pub written: nat,
}

/// `n` zero bytes.
pub open spec fn zeros(n: nat) -> Seq<u8> {
    Seq::new(n, |i: int| 0u8)
}

/// `contents` with zeros appended up to the length `len`; `contents` itself if it is as long.
pub open spec fn zero_extended(contents: Seq<u8>, len: nat) -> Seq<u8> {
    if len <= contents.len() {
        contents
    } else {
        contents + zeros((len - contents.len()) as nat)
    }
}

/// `contents` cut or zero-extended to exactly `len` bytes.
pub open spec fn resized(contents: Seq<u8>, len: nat) -> Seq<u8> {
    if len <= contents.len() {
        contents.take(len as int)
    } else {
        zero_extended(contents, len)
    }
}

/// `contents` with zeros in `from..to`, grown where it was too short to hold them. A gap between
/// the end of `contents` and `from` reads as zeros. An empty range changes nothing.
pub open spec fn zero_filled(contents: Seq<u8>, from: nat, to: nat) -> Seq<u8> {
    if from >= to {
        contents
    } else {
        Seq::new(
            if contents.len() < to { to } else { contents.len() },
            |i: int| if i < contents.len() && !(from <= i < to) { contents[i] } else { 0u8 },
        )
    }
}

/// `contents` is `old` followed by zeros only, and no longer than `limit` where it has grown.
pub open spec fn is_zero_extension(old: Seq<u8>, contents: Seq<u8>, limit: nat) -> bool {
    &&& old.len() <= contents.len()
    &&& old.len() < contents.len() ==> contents.len() <= limit
    &&& contents == zero_extended(old, contents.len())
}

/// `contents` is `old` grown to at least `size` bytes: it starts with `old` and, where `old` was
/// shorter than `size`, ends at `size`. With `zeroing`, the new bytes are zeros.
pub open spec fn is_grown(zeroing: bool, old: Seq<u8>, contents: Seq<u8>, size: nat) -> bool {
    &&& old.is_prefix_of(contents)
    &&& contents.len() == if old.len() < size { size } else { old.len() }
    &&& zeroing ==> contents == zero_extended(old, size)
}

impl FileImage {
    /// The position from which on accepted bytes may be missing.
    pub open spec fn settled_end(self) -> nat {
        (self.position - self.buffered) as nat
    }

    /// The contents once `k` of the buffered bytes have arrived.
    pub open spec fn contents_after(self, k: nat) -> Seq<u8> {
        zero_filled(self.contents, self.settled_end(), self.settled_end() + k)
    }

    /// Up to where the file has been written once `k` of the buffered bytes have arrived.
    pub open spec fn written_after(self, k: nat) -> nat {
        if k > 0 && self.written < self.settled_end() + k {
            self.settled_end() + k
        } else {
            self.written
        }
    }

    /// Every byte of the file has been written.
    pub open spec fn is_written(self) -> bool {
        self.contents.len() <= self.written
    }

    /// `contents` is what the file may hold when some of the buffered bytes arrive and the others
    /// are lost.
    pub open spec fn may_settle_as(self, contents: Seq<u8>) -> bool {
        exists|k: nat| k <= self.buffered && contents == #[trigger] self.contents_after(k)
    }

    /// The image after `n` more zeros have been accepted and none of them has arrived.
    pub open spec fn accepting(self, n: nat) -> FileImage {
        FileImage {
            contents: self.contents,
            position: self.position + n,
            buffered: self.buffered + n,
            written: self.written,
        }
    }

    /// The image once all but the last `still_buffered` accepted bytes have arrived.
    pub open spec fn settled_to(self, still_buffered: nat) -> FileImage {
        let k = (self.buffered - still_buffered) as nat;
        FileImage {
            contents: self.contents_after(k),
            position: self.position,
            buffered: still_buffered,
            written: self.written_after(k),
        }
    }

    /// `after` is the image once some of the buffered bytes have arrived by themselves.
    pub open spec fn arrives_as(self, after: FileImage) -> bool {
        &&& after.buffered <= self.buffered
        &&& after == self.settled_to(after.buffered)
    }

    /// The image once `k` of the buffered bytes have arrived and the others are lost.
    pub open spec fn settled(self, k: nat) -> FileImage {
        FileImage {
            contents: self.contents_after(k),
            position: self.settled_end() + k,
            buffered: 0,
            written: self.written_after(k),
        }
    }

    /// `after` is the image once the buffered bytes have been waited for: they have arrived, or
    /// the file failed to take them from some point on.
    pub open spec fn waits_as(self, after: FileImage) -> bool {
        exists|k: nat| k <= self.buffered && after == #[trigger] self.settled(k)
    }

    /// `after` is the image once the buffered bytes have been waited for and the position has been
    /// moved.
    pub open spec fn settles_as(self, after: FileImage) -> bool {
        exists|k: nat|
            k <= self.buffered && after == (FileImage {
                position: after.position,
                ..#[trigger] self.settled(k)
            })
    }

    /// `after` is the image once some zeros have been appended by other hands, up to the length
    /// `limit` at most.
    pub open spec fn grows_as(self, after: FileImage, limit: nat) -> bool {
        &&& is_zero_extension(self.contents, after.contents, limit)
        &&& after == (FileImage { contents: after.contents, ..self })
    }
}

/// Whatever becomes of the buffered bytes, the file holds `old` followed by zeros only, and is no
/// longer than `limit` where it has grown.
pub open spec fn settles_as_extension(old: Seq<u8>, limit: nat, image: FileImage) -> bool {
    forall|contents: Seq<u8>| #[trigger]
        image.may_settle_as(contents) ==> is_zero_extension(old, contents, limit)
}

/// The file, which held `old`, is somewhere on the way to `size` bytes: with some zeros appended,
/// or, where a fast path adds other bytes than zeros, at the end of the way. Such a fast path
/// needs `old` to have been written.
pub open spec fn is_partly_grown(
    zeroing: bool,
    old: Seq<u8>,
    size: nat,
    image: FileImage,
) -> bool {
    &&& image.buffered <= image.position
    &&& !zeroing ==> old.len() <= image.written
    &&& {
        ||| settles_as_extension(old, size, image)
        ||| !zeroing && image.buffered == 0 && is_grown(false, old, image.contents, size)
    }
}

/// The number of bytes that a fast path from `current_size` on keeps in any case: those that have
/// been written.
pub open spec fn kept_len(current_size: nat, image: FileImage) -> nat {
    if current_size < image.written {
        current_size
    } else {
        image.written
    }
}

/// What a fast path from `current_size` to `size` makes of a file with nothing buffered. If it has
/// `done` its work, it has kept what was written up to `current_size` and grown the file to
/// `size`, with zeros if it is `zeroing`; if it is not, the whole file counts as written. If the
/// work was not done, it may have appended zeros, or cut the file back to `current_size`. It does
/// not move the position.
pub open spec fn is_fast_path_effect(
    zeroing: bool,
    current_size: nat,
    size: nat,
    done: bool,
    before: FileImage,
    after: FileImage,
) -> bool {
    let kept = kept_len(current_size, before);
    &&& after.position == before.position
    &&& after.buffered == before.buffered
    &&& after.written >= kept
    &&& if done {
        &&& before.contents.take(kept as int).is_prefix_of(after.contents)
        &&& after.contents.len() == if before.contents.len() < size {
            size
        } else {
            before.contents.len()
        }
        &&& if zeroing {
            after.contents == zero_extended(before.contents, size)
        } else {
            after.is_written()
        }
    } else {
        ||| is_zero_extension(before.contents, after.contents, size)
        ||| after.contents == before.contents.take(current_size as int)
    }
}

/// Filling `from..mid` and then `mid..to` is filling `from..to`.
pub proof fn lemma_zero_filled_twice(contents: Seq<u8>, from: nat, mid: nat, to: nat)
    requires
        from <= mid <= to,
    ensures
        zero_filled(zero_filled(contents, from, mid), mid, to) == zero_filled(contents, from, to),
{
    assert(zero_filled(zero_filled(contents, from, mid), mid, to) =~= zero_filled(
        contents,
        from,
        to,
    ));
}

/// It may be that none of the buffered bytes arrives.
pub proof fn lemma_may_settle_as_is(image: FileImage)
    ensures
        image.may_settle_as(image.contents),
{
    assert(image.contents == image.contents_after(0));
}

/// Filling a zero extension of `old` with more zeros, from its end or from a point in the zeros
/// on, up to `to`, leaves a zero extension that reaches `to`.
pub proof fn lemma_zero_fill_of_extension(
    old: Seq<u8>,
    base: Seq<u8>,
    from: nat,
    to: nat,
    limit: nat,
)
    requires
        is_zero_extension(old, base, limit),
        old.len() <= from <= base.len(),
        to <= limit,
    ensures
        is_zero_extension(old, zero_filled(base, from, to), limit),
        from < to ==> zero_filled(base, from, to).len() >= to,
{
    let filled = zero_filled(base, from, to);
    assert(filled =~= zero_extended(old, filled.len()));
}

/// A zero extension of a zero extension of `old` is one of `old`, and so is one that is cut back
/// to no less than `old`.
pub proof fn lemma_extension_of_extension(
    old: Seq<u8>,
    mid: Seq<u8>,
    contents: Seq<u8>,
    current_size: nat,
    limit: nat,
)
    requires
        is_zero_extension(old, mid, limit),
        old.len() <= current_size <= mid.len(),
        is_zero_extension(mid, contents, limit) || contents == mid.take(current_size as int),
    ensures
        is_zero_extension(old, contents, limit),
        contents.len() >= current_size,
{
    assert(contents =~= zero_extended(old, contents.len()));
}

/// With nothing buffered, the image is what it is: waiting for the buffered bytes changes nothing.
pub proof fn lemma_at_rest(image: FileImage)
    requires
        image.buffered == 0,
    ensures
        forall|contents: Seq<u8>| #[trigger]
            image.may_settle_as(contents) <==> contents == image.contents,
        forall|after: FileImage| #[trigger] image.waits_as(after) <==> after == image,
        forall|after: FileImage| #[trigger]
            image.settles_as(after) <==> after == (FileImage { position: after.position, ..image }),
        forall|after: FileImage| #[trigger] image.arrives_as(after) <==> after == image,
{
    lemma_may_settle_as_is(image);
    assert(image.settled(0) =~= image);
    assert(image.settled_to(0) =~= image);
}

/// A file with nothing buffered is on the way from what it holds to any size. With a fast path
/// that adds other bytes than zeros, all of it has to have been written.
pub proof fn lemma_first_attempt(zeroing: bool, size: nat, image: FileImage)
    requires
        image.buffered == 0,
        zeroing || image.is_written(),
    ensures
        is_partly_grown(zeroing, image.contents, size, image),
{
    lemma_at_rest(image);
    assert(image.contents =~= zero_extended(image.contents, image.contents.len()));
}

/// What may become of the buffered bytes after some have arrived may have become of them before.
pub proof fn lemma_arrives_then(image: FileImage, after: FileImage)
    requires
        image.buffered <= image.position,
        image.arrives_as(after),
    ensures
        after.buffered <= after.position,
        after.contents.len() >= image.contents.len(),
        after.written >= image.written,
        forall|contents: Seq<u8>| #[trigger]
            after.may_settle_as(contents) ==> image.may_settle_as(contents),
        forall|waited: FileImage| #[trigger] after.waits_as(waited) ==> image.waits_as(waited),
        forall|other: FileImage| #[trigger] after.settles_as(other) ==> image.settles_as(other),
{
    let j = (image.buffered - after.buffered) as nat;
    assert forall|contents: Seq<u8>| #[trigger]
        after.may_settle_as(contents) implies image.may_settle_as(contents) by {
        let k = choose|k: nat|
            k <= after.buffered && contents == #[trigger] after.contents_after(k);
        lemma_zero_filled_twice(
            image.contents,
            image.settled_end(),
            after.settled_end(),
            after.settled_end() + k,
        );
        assert(contents == image.contents_after(j + k));
    }
    assert forall|waited: FileImage| #[trigger]
        after.waits_as(waited) implies image.waits_as(waited) by {
        let k = choose|k: nat| k <= after.buffered && waited == #[trigger] after.settled(k);
        lemma_zero_filled_twice(
            image.contents,
            image.settled_end(),
            after.settled_end(),
            after.settled_end() + k,
        );
        assert(waited == image.settled(j + k));
    }
    assert forall|other: FileImage| #[trigger]
        after.settles_as(other) implies image.settles_as(other) by {
        let k = choose|k: nat|
            k <= after.buffered && other == (FileImage {
                position: other.position,
                ..#[trigger] after.settled(k)
            });
        assert(after.waits_as(after.settled(k)));
        lemma_zero_filled_twice(
            image.contents,
            image.settled_end(),
            after.settled_end(),
            after.settled_end() + k,
        );
        assert(after.settled(k) == image.settled(j + k));
    }
}

/// What has been waited for is one of the things that may become of the buffered bytes.
pub proof fn lemma_waits_then(image: FileImage, after: FileImage)
    requires
        image.waits_as(after),
    ensures
        after.buffered == 0,
        after.contents.len() >= image.contents.len(),
        after.written >= image.written,
        image.may_settle_as(after.contents),
        image.settles_as(after),
{
    let k = choose|k: nat| k <= image.buffered && after == #[trigger] image.settled(k);
    assert(after.contents == image.contents_after(k));
    assert(after == (FileImage { position: after.position, ..image.settled(k) }));
}

/// The same where the position has been moved.
pub proof fn lemma_settles_then(image: FileImage, after: FileImage)
    requires
        image.settles_as(after),
    ensures
        after.buffered == 0,
        after.contents.len() >= image.contents.len(),
        after.written >= image.written,
        image.may_settle_as(after.contents),
{
    let k = choose|k: nat|
        k <= image.buffered && after == (FileImage {
            position: after.position,
            ..#[trigger] image.settled(k)
        });
    assert(after.contents == image.contents_after(k));
}

/// Filling a range with zeros and appending zeros can be done in either order.
pub proof fn lemma_extend_filled(contents: Seq<u8>, from: nat, to: nat, len: nat)
    ensures
        zero_extended(zero_filled(contents, from, to), len) == zero_filled(
            zero_extended(contents, len),
            from,
            to,
        ),
{
    assert(zero_extended(zero_filled(contents, from, to), len) =~= zero_filled(
        zero_extended(contents, len),
        from,
        to,
    ));
}

/// Zeros appended by other hands leave a file that settles as an extension of `old` one that does.
pub proof fn lemma_grown_settles_as_extension(
    old: Seq<u8>,
    limit: nat,
    image: FileImage,
    after: FileImage,
)
    requires
        settles_as_extension(old, limit, image),
        image.grows_as(after, limit),
    ensures
        settles_as_extension(old, limit, after),
{
    assert forall|contents: Seq<u8>| #[trigger]
        after.may_settle_as(contents) implies is_zero_extension(old, contents, limit) by {
        let k = choose|k: nat|
            k <= after.buffered && contents == #[trigger] after.contents_after(k);
        let mid = image.contents_after(k);
        assert(image.may_settle_as(mid));
        lemma_extend_filled(
            image.contents,
            image.settled_end(),
            image.settled_end() + k,
            after.contents.len(),
        );
        assert(contents == zero_extended(mid, after.contents.len()));
        assert(contents =~= zero_extended(old, contents.len()));
    }
}

/// A file that is partly grown and that has reached `size` is grown, whatever becomes of the
/// buffered bytes.
pub proof fn lemma_partly_grown_to_size(
    zeroing: bool,
    old: Seq<u8>,
    size: nat,
    image: FileImage,
    contents: Seq<u8>,
)
    requires
        is_partly_grown(zeroing, old, size, image),
        image.contents.len() >= size,
        image.may_settle_as(contents),
    ensures
        is_grown(zeroing, old, contents, size),
{
    lemma_may_settle_as_is(image);
    if settles_as_extension(old, size, image) {
        assert(is_zero_extension(old, contents, size));
        assert(old =~= contents.subrange(0, old.len() as int));
        assert(contents =~= zero_extended(old, size));
    } else {
        lemma_at_rest(image);
    }
}

} // verus!
