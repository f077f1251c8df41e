//! The priority-weighted random "lottery" queueing policy.
//!
//! Each unit of priority is one ticket. `peek` draws a uniformly
//! random ticket below the total and scans the held tasks, serving the
//! first one at which the accumulated priority reaches the draw, so a
//! task's chance of selection grows with its priority. The boundary
//! rule — a draw from `[0, total)` against an inclusive accumulation
//! test — gives the first-scanned position one extra effective ticket
//! and the last one fewer; the `wins` predicate records the rule
//! exactly.

use vstd::prelude::*;

use crate::task_list::TaskList;
use crate::tasks::Handle;
use crate::tasks::Task;

verus! {

#[verifier::external_type_specification]
#[verifier::external_body]
pub struct ExThreadRng(rand::rngs::ThreadRng);

/// Relies on rand::rng: hands out a handle to the calling thread's
/// own random generator; no state is shared across threads.
#[verifier::external_body]
fn fresh_randomizer() -> rand::rngs::ThreadRng {
    rand::rng()
}

/// Relies on rand's RngExt::random_range over `0..bound`: a uniformly
/// distributed integer in that half-open range, defined only for a
/// non-empty range. Beyond the bound, nothing is promised of a random
/// draw.
#[verifier::external_body]
fn draw_ticket(randomizer: &mut rand::rngs::ThreadRng, bound: u128) -> (t: u128)
    requires
        bound > 0,
    ensures
        t < bound,
{
    rand::RngExt::random_range(randomizer, 0..bound)
}

/// The total number of tickets held by the tasks of `s`: the sum of
/// their priorities.
pub open spec fn ticket_sum<H: Handle>(s: Seq<Task<H>>) -> int
    decreases s.len(),
{
    if s.len() == 0 {
        0
    } else {
        ticket_sum(s.drop_last()) + s.last().prio()
    }
}

/// Position `i` of `s` holds the winning task for `ticket`: it is the
/// first position at which the accumulated ticket count reaches the
/// draw, where each position contributes its own priority.
pub open spec fn wins<H: Handle>(s: Seq<Task<H>>, ticket: int, i: int) -> bool {
    &&& 0 <= i < s.len()
    &&& ticket_sum(s.take(i + 1)) >= ticket
    &&& forall|j: int| 0 <= j < i ==> #[trigger] ticket_sum(s.take(j + 1)) < ticket
}

/// With well-formed tasks the ticket total is bracketed by the task
/// count on one side and by the count times the largest priority on
/// the other: every priority lies between 1 and `i64::MAX`.
pub proof fn lemma_ticket_sum_bounds<H: Handle>(s: Seq<Task<H>>)
    requires
        forall|i: int| 0 <= i < s.len() ==> (#[trigger] s[i]).wf(),
    ensures
        s.len() <= ticket_sum(s) <= s.len() * (i64::MAX as int),
    decreases s.len(),
{
    if s.len() > 0 {
        assert(forall|i: int| 0 <= i < s.drop_last().len() ==> (#[trigger] s.drop_last()[i]).wf());
        lemma_ticket_sum_bounds(s.drop_last());
        assert(s.last().wf());
    }
}

/// A sole resident task wins every draw: with one task holding `p`
/// tickets the draw lies in `[0, p)`, and any such value selects the
/// first and only position.
pub proof fn lemma_single_task_always_wins<H: Handle>(s: Seq<Task<H>>, ticket: int)
    requires
        s.len() == 1,
        s[0].wf(),
        0 <= ticket < ticket_sum(s),
    ensures
        wins(s, ticket, 0),
{
    assert(s.take(1) =~= s);
}

/// A task list that removes a task with probability proportional to
/// its priority. The storage order is only the scan order of the
/// accumulation; it carries no semantic meaning, and does not bias the
/// selection because the draw is independent of it.
pub struct Lottery<H: Handle> {
    /// The held tasks, in insertion order.
    tasks: Vec<Task<H>>,
    /// The list's handle to the thread's random source.
    randomizer: rand::rngs::ThreadRng,
}

impl<H: Handle> Lottery<H> {
    /// Sums the tickets of all held tasks.
    fn total_tickets(&self) -> (t: u128)
        requires
            self.inv(),
        ensures
            t == ticket_sum(self.tasks()),
    {
        let ghost s = self.tasks@;
        let mut total: u128 = 0;
        let mut idx: usize = 0;
        while idx < self.tasks.len()
            invariant
                self.inv(),
                s == self.tasks@,
                0 <= idx <= s.len(),
                total == ticket_sum(s.take(idx as int)),
                total <= (idx as int) * (i64::MAX as int),
            decreases s.len() - idx,
        {
            proof {
                assert(s.take(idx + 1).drop_last() =~= s.take(idx as int));
                assert(s.take(idx + 1).last() == s[idx as int]);
                assert(s[idx as int].wf());
                assert((idx as int) * (i64::MAX as int) + (i64::MAX as int) == (idx + 1) as int
                    * (i64::MAX as int)) by (nonlinear_arith);
                assert((idx + 1) as int * (i64::MAX as int) <= 0xffff_ffff_ffff_ffffu64 as int
                    * (i64::MAX as int)) by (nonlinear_arith)
                    requires
                        0 <= (idx + 1) as int <= 0xffff_ffff_ffff_ffffu64 as int,
                ;
            }
            total = total + (self.tasks[idx].priority() as u128);
            idx = idx + 1;
        }
        proof {
            assert(s.take(s.len() as int) =~= s);
        }
        total
    }

    /// Scans the held tasks in storage order, accumulating priorities,
    /// and returns the first position whose accumulated count reaches
    /// the winning ticket. The final fallback to the first position is
    /// a defensive artifact: a valid draw always finds a winner.
    fn index_of_ticket(&self, ticket: u128) -> (idx: usize)
        requires
            self.inv(),
            ticket < ticket_sum(self.tasks()),
        ensures
            wins(self.tasks(), ticket as int, idx as int),
    {
        let ghost s = self.tasks@;
        let mut total: u128 = 0;
        let mut idx: usize = 0;
        while idx < self.tasks.len()
            invariant
                self.inv(),
                s == self.tasks@,
                ticket < ticket_sum(s),
                0 <= idx <= s.len(),
                total == ticket_sum(s.take(idx as int)),
                total <= (idx as int) * (i64::MAX as int),
                forall|j: int| 0 <= j < idx ==> #[trigger] ticket_sum(s.take(j + 1)) < ticket,
            decreases s.len() - idx,
        {
            proof {
                assert(s.take(idx + 1).drop_last() =~= s.take(idx as int));
                assert(s.take(idx + 1).last() == s[idx as int]);
                assert(s[idx as int].wf());
                assert((idx as int) * (i64::MAX as int) + (i64::MAX as int) == (idx + 1) as int
                    * (i64::MAX as int)) by (nonlinear_arith);
                assert((idx + 1) as int * (i64::MAX as int) <= 0xffff_ffff_ffff_ffffu64 as int
                    * (i64::MAX as int)) by (nonlinear_arith)
                    requires
                        0 <= (idx + 1) as int <= 0xffff_ffff_ffff_ffffu64 as int,
                ;
            }
            total = total + (self.tasks[idx].priority() as u128);

            if total >= ticket {
                return idx;
            }
            idx = idx + 1;
        }
        proof {
            if s.len() > 0 {
                let last = s.len() - 1;
                assert(ticket_sum(s.take(last + 1)) < ticket);
                assert(s.take(last + 1) =~= s);
            }
            assert(false);
        }
        0
    }
}

impl<H: Handle> TaskList for Lottery<H> {
    type H = H;

    closed spec fn tasks(&self) -> Seq<Task<H>> {
        self.tasks@
    }

    closed spec fn inv(&self) -> bool {
        forall|i: int| 0 <= i < self.tasks@.len() ==> (#[trigger] self.tasks@[i]).wf()
    }

    /// The lottery may serve exactly the positions that some valid
    /// draw selects: position `i` is pickable when a ticket below the
    /// total makes it the winner.
    open spec fn may_pick(&self, i: int) -> bool {
        exists|ticket: int|
            0 <= ticket < ticket_sum(self.tasks()) && #[trigger] wins(self.tasks(), ticket, i)
    }

    /// Creates a new, empty lottery with its own random source.
    fn new() -> (r: Self)
    {
        Lottery { tasks: Vec::new(), randomizer: fresh_randomizer() }
    }

    /// Selects and removes a task by a priority-weighted random draw;
    /// fails closed to nothing when no tasks are held. A sole resident
    /// task is returned whatever the draw.
    fn peek(&mut self) -> (r: Option<Task<H>>)
        ensures
            old(self).tasks().len() > 0 ==> exists|ticket: int, i: int|
                #![trigger wins(old(self).tasks(), ticket, i)]
                {
                    &&& 0 <= ticket < ticket_sum(old(self).tasks())
                    &&& wins(old(self).tasks(), ticket, i)
                    &&& r == Some(old(self).tasks()[i])
                    &&& final(self).tasks() == old(self).tasks().remove(i)
                },
            old(self).tasks().len() == 1 ==> r == Some(old(self).tasks()[0])
                && final(self).tasks().len() == 0,
    {
        if self.tasks.len() == 0 {
            return None;
        }
        proof {
            lemma_ticket_sum_bounds(self.tasks@);
        }
        let total = self.total_tickets();
        let ticket = draw_ticket(&mut self.randomizer, total);
        let idx = self.index_of_ticket(ticket);
        let ghost pre = self.tasks@;
        let t = self.tasks.remove(idx);
        proof {
            let ghost post = self.tasks@;
            assert forall|k: int| 0 <= k < post.len() implies (#[trigger] post[k]).wf() by {
                if k < idx as int {
                    assert(post[k] == pre[k]);
                } else {
                    assert(post[k] == pre[k + 1]);
                }
            }
            assert(wins(pre, ticket as int, idx as int));
            assert(old(self).may_pick(idx as int));
            assert(pre[idx as int].wf());
        }
        Some(t)
    }

    /// Appends the task to the held collection.
    fn add(&mut self, task: Task<H>)
    {
        self.tasks.push(task);
    }

    /// True if and only if no tasks are held.
    fn is_empty(&self) -> (r: bool)
    {
        self.tasks.len() == 0
    }
}

} // verus!
