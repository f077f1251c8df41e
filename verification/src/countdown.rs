//! A self-contained resumable computation: it suspends a fixed number
//! of times and then reaches a terminal state. It stands in for a
//! host-supplied computation wherever the scheduler is driven without
//! a host, and its behaviour is fully specified: the slice on which it
//! ends, and whether it ends by finishing or by raising an error, are
//! known in advance.

use vstd::prelude::*;

use crate::tasks::Handle;
use crate::tasks::Status;

verus! {

/// A computation that runs for a fixed number of slices. Each slice
/// but the last ends in a voluntary yield; the last one completes the
/// computation, or raises an error when so arranged.
pub struct Countdown {
    /// Slices still to run before the terminal state.
    slices_left: u64,
    /// Whether the final slice raises an error instead of finishing.
    fails: bool,
    /// The current observable status.
    state: Status,
    /// How many slices have run so far.
    slices_run: Ghost<nat>,
}

impl Countdown {
    /// Slices still to run before the terminal state.
    pub closed spec fn slices_left(&self) -> int {
        self.slices_left as int
    }

    /// Whether the final slice raises an error instead of finishing.
    pub closed spec fn fails(&self) -> bool {
        self.fails
    }

    /// Creates a resumable computation that runs for `slices` slices,
    /// of which the last finishes it, or errors it when `fails` is set.
    pub fn new(slices: u64, fails: bool) -> (h: Self)
        requires
            slices >= 1,
        ensures
            h.status() is Resumable,
            h.slices() == 0,
            h.slices_left() == slices,
            h.fails() == fails,
    {
        Countdown { slices_left: slices, fails, state: Status::Resumable, slices_run: Ghost(0) }
    }
}

impl Handle for Countdown {
    closed spec fn status(&self) -> Status {
        self.state
    }

    closed spec fn slices(&self) -> nat {
        self.slices_run@
    }

    /// This computation's behaviour is known in advance, so one slice
    /// leads to exactly one state: with more than one slice left it
    /// yields and stays resumable; on the last slice it finishes, or
    /// raises its arranged error.
    open spec fn may_step_to(self, next: Self) -> bool {
        &&& next.fails() == self.fails()
        &&& if self.slices_left() > 1 {
            next.status() is Resumable && next.slices_left() == self.slices_left() - 1
        } else {
            next.status() == (if self.fails() {
                Status::Errored
            } else {
                Status::Finished
            }) && next.slices_left() == 0
        }
    }

    /// Reports the stored status.
    fn current_status(&self) -> (s: Status)
    {
        self.state
    }

    /// Runs one slice: with more than one slice left it yields and
    /// stays resumable; on the last slice it finishes, or raises its
    /// arranged error.
    fn resume_one_slice(&mut self)
    {
        if self.slices_left > 1 {
            self.slices_left = self.slices_left - 1;
        } else {
            self.slices_left = 0;
            self.state = if self.fails {
                Status::Errored
            } else {
                Status::Finished
            };
        }
        proof {
            self.slices_run@ = self.slices_run@ + 1;
        }
    }
}

} // verus!
