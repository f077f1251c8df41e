//! The execution engine: drives tasks to completion under the chosen
//! queueing policy and tracks a monotonic step counter.

use vstd::prelude::*;

use crate::countdown::Countdown;
use crate::fifo::after_drains;
use crate::fifo::lemma_dead_step_drains;
use crate::fifo::lemma_live_step_rotates;
use crate::fifo::priorities;
use crate::fifo::rotations;
use crate::fifo::FIFOTaskList;
use crate::lottery::Lottery;
use crate::task_list::TaskList;
use crate::tasks::live;
use crate::tasks::Handle;
use crate::tasks::Task;

verus! {

/// A boundary-validation failure: a non-positive priority at task
/// submission, or a non-positive step count.
#[derive(Clone, Copy, Debug, PartialEq, Eq, Structural)]
pub enum SchedulerError {
    /// The argument was required to be a positive integer and was not.
    InvalidArgument,
}

/// The step counter after one more executed step: it grows by one and
/// saturates instead of wrapping into a smaller value.
pub open spec fn bumped(life_time: int) -> int {
    if life_time < u64::MAX { life_time + 1 } else { life_time }
}

/// A scheduler that owns one task container, chosen at construction
/// and fixed for its lifetime, and repeatedly serves one task per
/// step: select by policy, resume one slice, re-enqueue while live.
pub struct Scheduler<L: TaskList> {
    /// The collection of resident tasks, managed by the policy.
    tasks: L,
    /// The number of steps that actually resumed a task.
    life_time: u64,
}

/// One scheduling cycle, as a relation between a scheduler state and
/// its successor. An empty scheduler is left exactly as it is. A
/// non-empty one serves one policy-pickable position: the counter
/// moves by one, the served task is resumed — one more of its slices
/// has run, carrying it to a state one slice may reach — and the
/// resumed task is re-enqueued at the tail of the storage order if
/// still live, dropped if it finished or errored. Every other resident
/// task stays exactly where the removal leaves it.
pub open spec fn step_rel<L: TaskList>(pre: Scheduler<L>, post: Scheduler<L>) -> bool {
    if pre.resident().len() == 0 {
        post == pre
    } else {
        &&& post.life_time() == bumped(pre.life_time())
        &&& exists|i: int, t: Task<L::H>|
            #![trigger pre.list().may_pick(i), t.prio()]
            {
                &&& 0 <= i < pre.resident().len()
                &&& pre.list().may_pick(i)
                &&& pre.resident()[i].may_resume_to(t)
                &&& if live(t.status()) {
                    post.resident() == pre.resident().remove(i).push(t)
                } else {
                    post.resident() == pre.resident().remove(i)
                }
            }
    }
}

/// The states `n` scheduling cycles can carry a scheduler into: the
/// `n`-fold composition of the one-cycle relation.
pub open spec fn reaches<L: TaskList>(pre: Scheduler<L>, post: Scheduler<L>, n: nat) -> bool
    decreases n,
{
    if n == 0 {
        post == pre
    } else {
        exists|mid: Scheduler<L>|
            reaches(pre, mid, (n - 1) as nat) && #[trigger] step_rel(mid, post)
    }
}

impl<L: TaskList> Scheduler<L> {
    /// The owned task container.
    pub closed spec fn list(&self) -> L {
        self.tasks
    }

    /// The resident tasks, in the container's storage order.
    pub open spec fn resident(&self) -> Seq<Task<L::H>> {
        self.list().tasks()
    }

    /// The step counter.
    pub closed spec fn life_time(&self) -> int {
        self.life_time as int
    }

    /// The scheduler is well formed while its container is.
    pub open spec fn wf(&self) -> bool {
        self.list().inv()
    }

    /// Creates a scheduler bound to the given container, with a zero
    /// step counter.
    pub fn new(tasks: L) -> (s: Self)
        requires
            tasks.inv(),
        ensures
            s.wf(),
            s.list() == tasks,
            s.life_time() == 0,
    {
        Scheduler { tasks, life_time: 0 }
    }

    /// Reports how many steps have actually resumed a task. No side
    /// effects.
    pub fn lifetime(&self) -> (t: u64)
        ensures
            t == self.life_time(),
    {
        self.life_time
    }

    /// Reports whether any tasks are left. No side effects.
    pub fn has_tasks(&self) -> (r: bool)
        requires
            self.wf(),
        ensures
            r == (self.resident().len() > 0),
    {
        !self.tasks.is_empty()
    }

    /// Wraps the given computation and priority into a task and
    /// inserts it. A non-positive priority is rejected with an
    /// invalid-argument failure and no task is added.
    pub fn add_task(&mut self, handle: L::H, priority: i64) -> (r: Result<(), SchedulerError>)
        requires
            old(self).wf(),
        ensures
            final(self).wf(),
            priority >= 1 ==> r is Ok
                && final(self).resident() == old(self).resident().push(
                    Task::<L::H>::spec_new(handle, priority))
                && final(self).life_time() == old(self).life_time(),
            priority <= 0 ==> r == Err::<(), SchedulerError>(SchedulerError::InvalidArgument)
                && *final(self) == *old(self),
    {
        if priority <= 0 {
            return Err(SchedulerError::InvalidArgument);
        }
        self.tasks.add(Task::new(handle, priority));
        Ok(())
    }

    /// Executes a single scheduling cycle: ask the container for the
    /// next task by policy; if none, return with no state change.
    /// Otherwise resume that task for exactly one slice, count the
    /// step, and re-insert the task if it is still alive afterwards;
    /// a task that finished or errored is dropped. The whole cycle is
    /// pinned by the step relation.
    pub fn step(&mut self)
        requires
            old(self).wf(),
        ensures
            final(self).wf(),
            step_rel(*old(self), *final(self)),
    {
        let ghost pre = *self;
        let mut task = match self.tasks.peek() {
            Some(t) => t,
            None => { return; },
        };
        let ghost mid_list = self.tasks;
        let ghost t0 = task;
        let ghost i = choose|i: int|
            0 <= i < pre.list().tasks().len() && #[trigger] pre.list().may_pick(i)
                && Some(pre.list().tasks()[i]) == Some(t0) && pre.list().tasks()[i].wf()
                && mid_list.tasks() == pre.list().tasks().remove(i);

        task.resume();
        if self.life_time < u64::MAX {
            self.life_time = self.life_time + 1;
        }

        if task.is_alive() {
            self.tasks.add(task);
        }
        proof {
            assert(0 <= i < pre.resident().len() && pre.list().may_pick(i) && task.prio()
                == pre.resident()[i].prio());
            assert(pre.resident()[i].may_resume_to(task));
        }
    }

    /// Executes exactly `count` scheduling cycles, so the final state
    /// is one that `count` cycles reach. A non-positive count is
    /// rejected with an invalid-argument failure and no step is
    /// performed. Cycles on an empty list are no-ops that do not move
    /// the counter, so the counter grows by at most `count` — and by at
    /// least one when tasks were present — while a scheduler that
    /// starts empty is left untouched.
    pub fn steps(&mut self, count: i64) -> (r: Result<(), SchedulerError>)
        requires
            old(self).wf(),
        ensures
            final(self).wf(),
            count <= 0 ==> r == Err::<(), SchedulerError>(SchedulerError::InvalidArgument)
                && *final(self) == *old(self),
            count >= 1 ==> r is Ok && reaches(*old(self), *final(self), count as nat),
            count >= 1 ==> old(self).life_time() <= final(self).life_time() <= old(
                self).life_time() + count,
            count >= 1 && old(self).resident().len() > 0 ==> final(self).life_time() >= bumped(
                old(self).life_time()),
            count >= 1 && old(self).resident().len() == 0 ==> *final(self) == *old(self),
    {
        if count <= 0 {
            return Err(SchedulerError::InvalidArgument);
        }
        let mut executed: i64 = 0;
        while executed < count
            invariant
                0 <= executed <= count,
                self.wf(),
                reaches(*old(self), *self, executed as nat),
                old(self).life_time() <= self.life_time() <= old(self).life_time() + executed,
                executed == 0 ==> *self == *old(self),
                executed >= 1 && old(self).resident().len() > 0 ==> self.life_time() >= bumped(
                    old(self).life_time()),
                old(self).resident().len() == 0 ==> *self == *old(self),
            decreases count - executed,
        {
            let ghost before = *self;
            self.step();
            executed = executed + 1;
            proof {
                assert(step_rel(before, *self));
                assert(reaches(*old(self), *self, executed as nat));
            }
        }
        Ok(())
    }

    /// Runs the scheduler until all tasks are completed, by repeatedly
    /// stepping while tasks remain: the final state is one that some
    /// number of scheduling cycles reach. Every such cycle resumes a
    /// task and moves the counter, so the counter's ceiling bounds this
    /// loop: tasks that keep re-adding themselves occupy it for the
    /// counter's entire range, longer than any practical workload,
    /// before it gives up rather than let the counter wrap.
    pub fn run(&mut self)
        requires
            old(self).wf(),
        ensures
            final(self).wf(),
            exists|n: nat| reaches(*old(self), *final(self), n),
            final(self).life_time() >= old(self).life_time(),
            old(self).resident().len() == 0 ==> *final(self) == *old(self),
            final(self).resident().len() > 0 ==> final(self).life_time() == u64::MAX,
    {
        let ghost mut cycles: nat = 0;
        while self.has_tasks() && self.life_time < u64::MAX
            invariant
                self.wf(),
                reaches(*old(self), *self, cycles),
                self.life_time() >= old(self).life_time(),
                old(self).resident().len() == 0 ==> *self == *old(self),
            decreases u64::MAX - self.life_time,
        {
            let ghost before = *self;
            self.step();
            proof {
                cycles = cycles + 1;
                assert(step_rel(before, *self));
                assert(reaches(*old(self), *self, cycles));
            }
        }
        proof {
            assert(reaches(*old(self), *self, cycles));
        }
    }
}

/// A factory that creates a fresh scheduler bound to the
/// first-in-first-out policy, with an empty task list and a zero step
/// counter.
pub fn fifo<H: Handle>() -> (s: Scheduler<FIFOTaskList<H>>)
    ensures
        s.wf(),
        s.resident().len() == 0,
        s.life_time() == 0,
{
    Scheduler::new(FIFOTaskList::new())
}

/// A factory that creates a fresh scheduler bound to the lottery
/// policy, with an empty task list and a zero step counter.
pub fn lottery<H: Handle>() -> (s: Scheduler<Lottery<H>>)
    ensures
        s.wf(),
        s.resident().len() == 0,
        s.life_time() == 0,
{
    Scheduler::new(Lottery::new())
}

/// Submitting a task always leaves the scheduler with work: a
/// successful `add_task` grows the resident tasks by exactly the
/// submitted task, so `has_tasks` reports true immediately afterwards,
/// whatever the policy.
pub proof fn lemma_add_task_leaves_work<L: TaskList>(
    before: Scheduler<L>,
    after: Scheduler<L>,
    t: Task<L::H>,
)
    requires
        after.resident() == before.resident().push(t),
    ensures
        after.resident().len() > 0,
{
}

/// For a first-in-first-out scheduler of countdown computations that
/// are all on their last slice, one scheduling cycle serves exactly
/// the first task inserted, which reaches its terminal state and is
/// dropped: what remains is the queue without its front, and the
/// other tasks are untouched. Chained with `lemma_fifo_service_order`,
/// cycles on such a queue serve the tasks in exactly their insertion
/// order.
pub proof fn lemma_fifo_step_drains(
    pre: Scheduler<FIFOTaskList<Countdown>>,
    post: Scheduler<FIFOTaskList<Countdown>>,
)
    requires
        step_rel(pre, post),
        pre.resident().len() > 0,
        forall|k: int| 0 <= k < pre.resident().len() ==> (#[trigger] pre.resident()[k]).status()
            is Resumable && pre.resident()[k].handle().slices_left() <= 1,
    ensures
        post.resident() == after_drains(pre.resident(), 1),
        post.life_time() == bumped(pre.life_time()),
{
    let (i, t): (int, Task<Countdown>) = choose|i: int, t: Task<Countdown>|
        #![trigger pre.list().may_pick(i), t.prio()]
        {
            &&& 0 <= i < pre.resident().len()
            &&& pre.list().may_pick(i)
            &&& pre.resident()[i].may_resume_to(t)
            &&& if live(t.status()) {
                post.resident() == pre.resident().remove(i).push(t)
            } else {
                post.resident() == pre.resident().remove(i)
            }
        };
    assert(i == 0);
    assert(pre.resident()[0].status() is Resumable);
    assert(pre.resident()[0].handle().may_step_to(t.handle()));
    Task::lemma_status_is_handle_status(t);
    assert(!live(t.status()));
    lemma_dead_step_drains(pre.resident());
}

/// FIFO service order, over a whole run: when a first-in-first-out
/// scheduler holds countdown computations that all finish in their
/// first slice, `n` scheduling cycles serve exactly the first `n`
/// tasks, in their insertion order, each serving cycle moving the
/// counter by one; what remains is the queue without its first `n`
/// tasks. Once the queue is drained, further cycles change nothing.
pub proof fn lemma_fifo_drain_run(
    pre: Scheduler<FIFOTaskList<Countdown>>,
    post: Scheduler<FIFOTaskList<Countdown>>,
    n: nat,
)
    requires
        reaches(pre, post, n),
        pre.life_time() + pre.resident().len() <= u64::MAX,
        forall|k: int| 0 <= k < pre.resident().len() ==> (#[trigger] pre.resident()[k]).status()
            is Resumable && pre.resident()[k].handle().slices_left() <= 1,
    ensures
        n <= pre.resident().len() ==> post.resident() == pre.resident().skip(n as int)
            && post.life_time() == pre.life_time() + n,
        n >= pre.resident().len() ==> post.resident().len() == 0 && post.life_time() == pre
            .life_time() + pre.resident().len(),
    decreases n,
{
    if n == 0 {
        assert(pre.resident().skip(0) =~= pre.resident());
    } else {
        let mid = choose|mid: Scheduler<FIFOTaskList<Countdown>>|
            reaches(pre, mid, (n - 1) as nat) && #[trigger] step_rel(mid, post);
        lemma_fifo_drain_run(pre, mid, (n - 1) as nat);
        if n - 1 < pre.resident().len() {
            assert(forall|k: int|
                0 <= k < mid.resident().len() ==> mid.resident()[k] == pre.resident()[k + n - 1]);
            lemma_fifo_step_drains(mid, post);
            assert(after_drains(mid.resident(), 0) == mid.resident());
            assert(pre.resident().skip(n - 1).drop_first() =~= pre.resident().skip(n as int));
            if n == pre.resident().len() {
                assert(pre.resident().skip(n as int).len() == 0);
            }
        }
    }
}

/// A run on bounded work leaves nothing: a first-in-first-out
/// scheduler of countdown computations that finish in their first
/// slice, whose counter has room for them, ends `run` with an empty
/// list and the counter grown by exactly the number of tasks served.
/// The premises are what `run` itself ensures: the final state is
/// reached by some number of cycles, and tasks remain only at the
/// counter's ceiling — which bounded work cannot reach.
pub proof fn lemma_fifo_bounded_run_drains(
    pre: Scheduler<FIFOTaskList<Countdown>>,
    post: Scheduler<FIFOTaskList<Countdown>>,
    n: nat,
)
    requires
        reaches(pre, post, n),
        pre.life_time() + pre.resident().len() < u64::MAX,
        forall|k: int| 0 <= k < pre.resident().len() ==> (#[trigger] pre.resident()[k]).status()
            is Resumable && pre.resident()[k].handle().slices_left() <= 1,
        post.resident().len() > 0 ==> post.life_time() == u64::MAX,
    ensures
        post.resident().len() == 0,
        post.life_time() == pre.life_time() + pre.resident().len(),
{
    lemma_fifo_drain_run(pre, post, n);
    if n < pre.resident().len() {
        assert(post.resident().len() > 0);
        assert(false);
    }
}

/// For a first-in-first-out scheduler of countdown computations that
/// all have more than one slice left, one scheduling cycle serves the
/// front task and re-enqueues it, still live and with its priority
/// kept, at the tail: the queue's priorities rotate by one position.
/// Chained with `lemma_fifo_round_robin`, one task's consecutive
/// resumptions are separated by exactly the number of other resident
/// tasks.
pub proof fn lemma_fifo_step_rotates(
    pre: Scheduler<FIFOTaskList<Countdown>>,
    post: Scheduler<FIFOTaskList<Countdown>>,
)
    requires
        step_rel(pre, post),
        pre.resident().len() > 0,
        forall|k: int| 0 <= k < pre.resident().len() ==> (#[trigger] pre.resident()[k]).status()
            is Resumable && pre.resident()[k].handle().slices_left() > 1,
    ensures
        post.resident().len() == pre.resident().len(),
        forall|j: int| 0 <= j < pre.resident().len() - 1 ==> post.resident()[j]
            == pre.resident()[j + 1],
        post.resident().last().status() is Resumable,
        post.resident().last().prio() == pre.resident()[0].prio(),
        post.resident().last().handle().slices_left() == pre.resident()[0].handle().slices_left()
            - 1,
        priorities(post.resident()) == rotations(priorities(pre.resident()), 1),
        post.life_time() == bumped(pre.life_time()),
{
    let (i, t): (int, Task<Countdown>) = choose|i: int, t: Task<Countdown>|
        #![trigger pre.list().may_pick(i), t.prio()]
        {
            &&& 0 <= i < pre.resident().len()
            &&& pre.list().may_pick(i)
            &&& pre.resident()[i].may_resume_to(t)
            &&& if live(t.status()) {
                post.resident() == pre.resident().remove(i).push(t)
            } else {
                post.resident() == pre.resident().remove(i)
            }
        };
    assert(i == 0);
    assert(pre.resident()[0].status() is Resumable);
    assert(pre.resident()[0].handle().may_step_to(t.handle()));
    Task::lemma_status_is_handle_status(t);
    assert(live(t.status()));
    lemma_live_step_rotates(pre.resident(), t);
}

/// Round-robin fairness, over a whole run: when a first-in-first-out
/// scheduler holds countdown computations that all stay live through
/// `n` cycles, the cycles rotate the queue by `n` positions, so one
/// task's consecutive resumptions are separated by exactly the number
/// of other resident tasks, and every cycle moves the counter by one.
/// `floor` is a lower bound on every computation's remaining slices;
/// it only needs to outlast the cycles watched.
pub proof fn lemma_fifo_rotation_run(
    pre: Scheduler<FIFOTaskList<Countdown>>,
    post: Scheduler<FIFOTaskList<Countdown>>,
    n: nat,
    floor: int,
)
    requires
        reaches(pre, post, n),
        pre.resident().len() > 0,
        pre.life_time() + n <= u64::MAX,
        n < floor,
        forall|k: int| 0 <= k < pre.resident().len() ==> (#[trigger] pre.resident()[k]).status()
            is Resumable && pre.resident()[k].handle().slices_left() >= floor,
    ensures
        priorities(post.resident()) == rotations(priorities(pre.resident()), n as int),
        post.resident().len() == pre.resident().len(),
        post.life_time() == pre.life_time() + n,
        forall|k: int| 0 <= k < post.resident().len() ==> (#[trigger] post.resident()[k]).status()
            is Resumable && post.resident()[k].handle().slices_left() >= floor - n,
    decreases n,
{
    let p = priorities(pre.resident());
    if n == 0 {
        assert(rotations(p, 0) == p);
    } else {
        let mid = choose|mid: Scheduler<FIFOTaskList<Countdown>>|
            reaches(pre, mid, (n - 1) as nat) && #[trigger] step_rel(mid, post);
        lemma_fifo_rotation_run(pre, mid, (n - 1) as nat, floor);
        lemma_fifo_step_rotates(mid, post);
        let q = priorities(mid.resident());
        assert(rotations(q, 0) == q);
        assert(rotations(q, 1) == q.drop_first().push(q[0]));
        assert(rotations(p, n as int) == rotations(p, n - 1).drop_first().push(
            rotations(p, n - 1)[0]));
        assert forall|k: int| 0 <= k < post.resident().len() implies (#[trigger] post.resident()[k]).status()
            is Resumable && post.resident()[k].handle().slices_left() >= floor - n by {
            if k < post.resident().len() - 1 {
                assert(post.resident()[k] == mid.resident()[k + 1]);
            } else {
                assert(post.resident()[k] == post.resident().last());
            }
        }
    }
}

} // verus!
