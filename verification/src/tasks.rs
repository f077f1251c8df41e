//! The schedulable unit: a resumable computation paired with a priority.

use vstd::prelude::*;

verus! {

/// The observable state of a resumable computation.
#[derive(Clone, Copy, Debug, PartialEq, Eq, Structural)]
pub enum Status {
    /// The computation was just created or has voluntarily suspended;
    /// it can be advanced by one more slice.
    Resumable,
    /// The computation is in the middle of a slice. This is transient:
    /// it is observed only when the handle is examined while a nested
    /// resumption is in progress.
    Running,
    /// The computation has completed. Terminal.
    Finished,
    /// The computation has raised an error during a slice. Terminal.
    Errored,
}

/// A computation is live while it has not reached a terminal state.
pub open spec fn live(s: Status) -> bool {
    s is Resumable || s is Running
}

/// A resumable computation, supplied by the host that embeds the
/// scheduler. The scheduler core depends only on this narrow
/// capability: observe the status, and advance by exactly one slice.
pub trait Handle: Sized {
    /// The status the handle reports in its current state.
    spec fn status(&self) -> Status;

    /// How many slices the computation has run so far.
    spec fn slices(&self) -> nat;

    /// The states one slice may carry this computation into. Each kind
    /// of handle pins this as tightly as its computation allows: a
    /// fully specified computation pins the exact successor, a foreign
    /// one leaves the outcome to the computation.
    spec fn may_step_to(self, next: Self) -> bool;

    /// Reports the current status without advancing the computation.
    fn current_status(&self) -> (s: Status)
        ensures
            s == self.status(),
    ;

    /// Advances the computation by exactly one slice: it runs until it
    /// voluntarily suspends, completes, or raises an error. May only be
    /// called while the status is exactly `Resumable`. One more slice
    /// has run afterwards, and the new state is one that a slice may
    /// reach.
    fn resume_one_slice(&mut self)
        requires
            old(self).status() is Resumable,
        ensures
            final(self).slices() == old(self).slices() + 1,
            old(self).may_step_to(*final(self)),
    ;
}

/// A schedulable unit of work: one resumable computation together with
/// its scheduling weight.
pub struct Task<H: Handle> {
    /// The resumable computation, exclusively owned.
    handle: H,
    /// The priority. Positive; higher values mean a larger weight.
    priority: i64,
}

impl<H: Handle> Task<H> {
    /// The stored scheduling weight.
    pub closed spec fn prio(&self) -> int {
        self.priority as int
    }

    /// The status of the owned computation.
    pub closed spec fn status(&self) -> Status {
        self.handle.status()
    }

    /// The owned computation.
    pub closed spec fn handle(&self) -> H {
        self.handle
    }

    /// A task is well formed when its priority is a positive integer;
    /// a stored priority also always fits the machine word it is kept
    /// in.
    pub open spec fn wf(&self) -> bool {
        1 <= self.prio() <= i64::MAX
    }

    /// The task value made of the given handle and priority.
    pub closed spec fn spec_new(handle: H, priority: i64) -> Task<H> {
        Task { handle, priority }
    }

    /// The values one `resume` call may produce from `self`. The
    /// priority is kept either way. When the status is exactly
    /// `Resumable`, the computation runs one more slice and moves to a
    /// state a slice may reach; in any other status, nothing happens.
    pub open spec fn may_resume_to(self, next: Task<H>) -> bool {
        &&& next.prio() == self.prio()
        &&& if self.status() is Resumable {
            next.handle().slices() == self.handle().slices() + 1
                && self.handle().may_step_to(next.handle())
        } else {
            next == self
        }
    }

    /// A task reports exactly its computation's status.
    pub proof fn lemma_status_is_handle_status(t: Task<H>)
        ensures
            t.status() == t.handle().status(),
    {
    }

    /// What a task made of the given handle and priority looks like:
    /// both are stored verbatim.
    pub broadcast proof fn lemma_spec_new(handle: H, priority: i64)
        ensures
            (#[trigger] Task::spec_new(handle, priority)).prio() == priority,
            Task::spec_new(handle, priority).status() == handle.status(),
            Task::spec_new(handle, priority).handle() == handle,
    {
    }

    /// Wraps a computation and its priority. Priority validity is the
    /// caller's responsibility: the boundary that creates tasks rejects
    /// non-positive priorities.
    pub fn new(handle: H, priority: i64) -> (t: Self)
        requires
            priority >= 1,
        ensures
            t == Self::spec_new(handle, priority),
            t.prio() == priority,
            t.status() == handle.status(),
            t.wf(),
    {
        Task { handle, priority }
    }

    /// Returns the stored priority.
    pub fn priority(&self) -> (p: i64)
        ensures
            p == self.prio(),
    {
        self.priority
    }

    /// Reports whether the computation can still make progress, without
    /// resuming it.
    pub fn is_alive(&self) -> (r: bool)
        ensures
            r == live(self.status()),
    {
        match self.handle.current_status() {
            Status::Resumable | Status::Running => true,
            Status::Finished | Status::Errored => false,
        }
    }

    /// Advances the computation by one slice if and only if its status
    /// is exactly `Resumable`; anything else makes this a no-op. An
    /// error raised during the slice is swallowed here: it shows
    /// afterwards as `is_alive` returning false.
    pub fn resume(&mut self)
        ensures
            old(self).may_resume_to(*final(self)),
            final(self).prio() == old(self).prio(),
            final(self).wf() == old(self).wf(),
            !(old(self).status() is Resumable) ==> *final(self) == *old(self),
    {
        if matches!(self.handle.current_status(), Status::Resumable) {
            self.handle.resume_one_slice();
        }
    }
}

} // verus!
