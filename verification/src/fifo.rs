//! The first-in-first-out queueing policy.

use vstd::prelude::*;

use crate::task_list::TaskList;
use crate::tasks::Handle;
use crate::tasks::Task;
use std::collections::VecDeque;

verus! {

broadcast use vstd::std_specs::vecdeque::group_vec_dequeue_axioms;

/// A task list that serves tasks in strict insertion order: `peek`
/// always removes the task resident longest among those currently
/// held, and `add` appends to the tail. When still-live tasks are
/// re-enqueued after each slice this yields round-robin fairness: a
/// just-resumed task waits behind every task that was already waiting.
pub struct FIFOTaskList<H: Handle> {
    /// The underlying queue, oldest insertion at the front.
    tasks: VecDeque<Task<H>>,
}

impl<H: Handle> TaskList for FIFOTaskList<H> {
    type H = H;

    closed spec fn tasks(&self) -> Seq<Task<H>> {
        self.tasks@
    }

    closed spec fn inv(&self) -> bool {
        forall|i: int| 0 <= i < self.tasks@.len() ==> (#[trigger] self.tasks@[i]).wf()
    }

    /// First-in-first-out: only the front position may be served.
    open spec fn may_pick(&self, i: int) -> bool {
        i == 0
    }

    /// Creates a new, empty queue.
    fn new() -> (r: Self)
    {
        FIFOTaskList { tasks: VecDeque::new() }
    }

    /// Appends the task at the tail of the queue.
    fn add(&mut self, task: Task<H>)
    {
        self.tasks.push_back(task);
    }

    /// Removes and returns the oldest task, from the front of the
    /// queue; nothing if the queue is empty.
    fn peek(&mut self) -> (r: Option<Task<H>>)
        ensures
            old(self).tasks().len() > 0 ==> r == Some(old(self).tasks()[0])
                && final(self).tasks() == old(self).tasks().drop_first(),
    {
        if self.tasks.len() == 0 {
            return None;
        }
        proof {
            assert(self.may_pick(0));
            assert(self.tasks@.remove(0) =~= self.tasks@.subrange(1, self.tasks@.len() as int));
        }
        self.tasks.pop_front()
    }

    /// True if and only if the queue holds no tasks.
    fn is_empty(&self) -> (r: bool)
    {
        self.tasks.len() == 0
    }
}

/// The priorities of the tasks of `q`, in storage order.
pub open spec fn priorities<H: Handle>(q: Seq<Task<H>>) -> Seq<int> {
    q.map(|i: int, t: Task<H>| t.prio())
}

/// What remains of a FIFO queue after `k` steps in which every served
/// task finishes within its first slice: each step removes the front
/// and re-enqueues nothing.
pub open spec fn after_drains<H: Handle>(q: Seq<Task<H>>, k: int) -> Seq<Task<H>>
    decreases k,
{
    if k <= 0 {
        q
    } else {
        after_drains(q, k - 1).drop_first()
    }
}

/// FIFO service order: when tasks are inserted in some order and none
/// of them suspends, the steps serve them in exactly that order — what
/// remains after `k` such steps is the queue without its first `k`
/// tasks, and the task the next step serves is the one inserted `k`-th.
pub proof fn lemma_fifo_service_order<H: Handle>(q: Seq<Task<H>>, k: int)
    requires
        0 <= k < q.len(),
    ensures
        after_drains(q, k) == q.skip(k),
        after_drains(q, k)[0] == q[k],
    decreases k,
{
    if k == 0 {
        assert(q.skip(0) =~= q);
    } else {
        lemma_fifo_service_order(q, k - 1);
        assert(q.skip(k - 1).drop_first() =~= q.skip(k));
    }
}

/// A submitted task is served once the residents before it are gone:
/// a task appended behind `j` waiting tasks is exactly the one at the
/// front after `j` draining cycles, so first-in-first-out never loses
/// a submission.
pub proof fn lemma_fifo_added_task_is_served<H: Handle>(q: Seq<Task<H>>, t: Task<H>)
    ensures
        after_drains(q.push(t), q.len() as int)[0] == t,
{
    lemma_fifo_service_order(q.push(t), q.len() as int);
}

/// One draining FIFO step, as the engine reports it, is one
/// application of `after_drains`: removing the front position is
/// dropping the first task.
pub proof fn lemma_dead_step_drains<H: Handle>(q: Seq<Task<H>>)
    requires
        q.len() > 0,
    ensures
        q.remove(0) == after_drains(q, 1),
{
    assert(after_drains(q, 0) == q);
    assert(q.remove(0) =~= q.drop_first());
}

/// A FIFO queue of priorities after `k` steps in which every served
/// task stays live: each step serves the front and re-enqueues the
/// resumed task, with its priority unchanged, at the tail.
pub open spec fn rotations(p: Seq<int>, k: int) -> Seq<int>
    decreases k,
{
    if k <= 0 {
        p
    } else {
        let r = rotations(p, k - 1);
        r.drop_first().push(r[0])
    }
}

/// Serving one live task rotates the queue: the resumed task keeps its
/// priority and waits behind every task that was already waiting.
pub proof fn lemma_live_step_rotates<H: Handle>(q: Seq<Task<H>>, t: Task<H>)
    requires
        q.len() > 0,
        t.prio() == q[0].prio(),
    ensures
        priorities(q.remove(0).push(t)) == rotations(priorities(q), 1),
{
    let lhs = priorities(q.remove(0).push(t));
    let p = priorities(q);
    let rhs = rotations(p, 1);
    assert(rotations(p, 0) == p);
    assert(rhs == p.drop_first().push(p[0]));
    assert(lhs.len() == rhs.len());
    assert forall|j: int| 0 <= j < lhs.len() implies lhs[j] == rhs[j] by {
        if j < q.len() - 1 {
            assert(q.remove(0).push(t)[j] == q[j + 1]);
            assert(lhs[j] == q[j + 1].prio());
            assert(rhs[j] == p.drop_first()[j]);
        } else {
            assert(q.remove(0).push(t)[j] == t);
            assert(rhs[j] == p[0]);
        }
    }
    assert(lhs =~= rhs);
}

/// Round-robin fairness: while every task stays live, `k` FIFO steps
/// rotate the queue by `k` positions, so one task's consecutive
/// resumptions are separated by exactly the number of other resident
/// tasks — the task first inserted at position `j` is at the front,
/// about to be served, exactly on the steps `k` with `(j + k)` a
/// multiple of the queue's length.
pub proof fn lemma_fifo_round_robin(p: Seq<int>, k: int)
    requires
        p.len() > 0,
        0 <= k,
    ensures
        rotations(p, k).len() == p.len(),
        forall|j: int|
            0 <= j < p.len() ==> rotations(p, k)[j] == p[(j + k) % (p.len() as int)],
    decreases k,
{
    let n = p.len() as int;
    if k == 0 {
        assert forall|j: int| 0 <= j < n implies rotations(p, 0)[j] == p[(j + 0) % n] by {
            vstd::arithmetic::div_mod::lemma_small_mod(j as nat, n as nat);
        }
    } else {
        lemma_fifo_round_robin(p, k - 1);
        let r = rotations(p, k - 1);
        assert forall|j: int| 0 <= j < n implies rotations(p, k)[j] == p[(j + k) % n] by {
            if j < n - 1 {
                assert(rotations(p, k)[j] == r[j + 1]);
            } else {
                assert(rotations(p, k)[j] == r[0]);
                vstd::arithmetic::div_mod::lemma_mod_add_multiples_vanish(k - 1, n);
                assert((n + (k - 1)) % n == (k - 1) % n);
                assert(j + k == n + (k - 1));
            }
        }
    }
}

} // verus!
