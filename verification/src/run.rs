//! Runs of the state machines on a file.

use crate::image::FileImage;
use vstd::prelude::*;

verus! {

/// A state machine whose calls act on a file.
pub trait Machine: Sized {
    /// What the caller hands back after a call.
    type Event;

    /// The state after `event`.
    spec fn next(self, event: Self::Event) -> Self;

    /// The call that this state asks for may end as `event` and turn the file `before` into
    /// `after`. `zeroing` says that the space which the platform's fast path adds reads as zeros.
    ///
    /// This is an assumption on the calls, which the caller makes: nothing proves it, and what is
    /// proved of a run holds as far as the system keeps to it.
    spec fn outcome(
        self,
        zeroing: bool,
        event: Self::Event,
        before: FileImage,
        after: FileImage,
    ) -> bool;
}

/// A run: the states that a machine goes through, the events between them, and the file in each
/// state.
pub struct Run<M: Machine> {
    pub states: Seq<M>,
    pub events: Seq<M::Event>,
    pub images: Seq<FileImage>,
}

impl<M: Machine> Run<M> {
    /// The step out of the state `i` is one that the machine and the file may take.
    pub open spec fn is_step(self, zeroing: bool, i: int) -> bool {
        &&& self.states[i + 1] == self.states[i].next(self.events[i])
        &&& self.states[i].outcome(zeroing, self.events[i], self.images[i], self.images[i + 1])
    }

    /// The run starts in `start` on the file `image`, and each of its steps is a possible one.
    pub open spec fn starts(self, zeroing: bool, start: M, image: FileImage) -> bool {
        &&& self.states.len() == self.events.len() + 1
        &&& self.images.len() == self.states.len()
        &&& self.states[0] == start
        &&& self.images[0] == image
        &&& forall|i: int| 0 <= i < self.events.len() ==> #[trigger] self.is_step(zeroing, i)
    }

    /// The state that the run has come to.
    pub open spec fn end(self) -> M {
        self.states.last()
    }

    /// The file at the end of the run.
    pub open spec fn end_image(self) -> FileImage {
        self.images.last()
    }
}

} // verus!
