//! A resumable computation backed by a Lua coroutine, so that the
//! scheduler can drive computations a Lua host supplies.

use vstd::prelude::*;

use crate::tasks::Handle;
use crate::tasks::Status;

verus! {

#[verifier::external_type_specification]
#[verifier::external_body]
pub struct ExThread(mlua::Thread);

/// Relies on mlua::Thread::status: reports the coroutine's current
/// state. A thread that is active without running itself (it has
/// resumed another thread) counts as running here, since it can
/// neither be resumed nor has it ended.
#[verifier::external_body]
fn thread_status(thread: &mlua::Thread) -> Status {
    match thread.status() {
        mlua::thread::ThreadStatus::Resumable => Status::Resumable,
        mlua::thread::ThreadStatus::Running => Status::Running,
        mlua::thread::ThreadStatus::Normal => Status::Running,
        mlua::thread::ThreadStatus::Finished => Status::Finished,
        mlua::thread::ThreadStatus::Error => Status::Errored,
    }
}

/// Relies on mlua::Thread::resume: advances the coroutine until it
/// yields, returns or raises an error, passing no arguments. What it
/// yields or returns is discarded, and so is a raised error: the
/// outcome shows in the thread's status afterwards.
#[verifier::external_body]
fn thread_resume(thread: &mlua::Thread) {
    let _ = thread.resume::<()>(());
}

/// A resumable computation backed by a host coroutine. The status is
/// read from the thread when the handle is created and after every
/// resumption, and kept here, so that the scheduler sees one constant
/// answer between slices of a thread it exclusively owns.
pub struct LuaHandle {
    /// The host coroutine, owned exclusively by this handle.
    thread: mlua::Thread,
    /// The status the thread reported last.
    status: Status,
    /// How many slices have run so far.
    slices_run: Ghost<nat>,
}

impl LuaHandle {
    /// Wraps a host coroutine. A thread fresh from a function starts
    /// resumable; one handed over in another state keeps that state.
    pub fn from_thread(thread: mlua::Thread) -> (h: Self)
        ensures
            h.slices() == 0,
    {
        let status = thread_status(&thread);
        LuaHandle { thread, status, slices_run: Ghost(0) }
    }
}

impl Handle for LuaHandle {
    closed spec fn status(&self) -> Status {
        self.status
    }

    closed spec fn slices(&self) -> nat {
        self.slices_run@
    }

    /// What one slice of a foreign coroutine does is the script's own
    /// business, so any state may follow; even a running status can be
    /// observed, of a thread examined while it resumes another.
    open spec fn may_step_to(self, next: Self) -> bool {
        true
    }

    /// Reports the status recorded at the last resumption.
    fn current_status(&self) -> (s: Status)
    {
        self.status
    }

    /// Resumes the coroutine for one slice and records what it reports
    /// afterwards.
    fn resume_one_slice(&mut self)
    {
        thread_resume(&self.thread);
        self.status = thread_status(&self.thread);
        proof {
            self.slices_run@ = self.slices_run@ + 1;
        }
    }
}

} // verus!
