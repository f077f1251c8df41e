//! The queueing-policy capability: any container of tasks that the
//! scheduler can drive.

use vstd::prelude::*;

use crate::tasks::Handle;
use crate::tasks::Task;

verus! {

/// The common capability of a task container, implemented by the
/// interchangeable queueing policies. A scheduler owns one conforming
/// container, fixed at construction.
///
/// The policy-independent promises: a fresh list is empty; `add`
/// appends to the storage order and never fails; `peek` removes and
/// returns one resident task, chosen by the policy, or nothing from an
/// empty list; `is_empty` reports whether any task is held. Which
/// position `peek` may take is the policy's own rule, exposed as the
/// `may_pick` predicate.
pub trait TaskList: Sized {
    /// The kind of resumable computation the held tasks own.
    type H: Handle;

    /// The held tasks, in storage order.
    spec fn tasks(&self) -> Seq<Task<Self::H>>;

    /// The container's internal invariant: established by `new`,
    /// preserved by `add` and `peek`. It entails that every held task
    /// is well formed.
    spec fn inv(&self) -> bool;

    /// The policy's selection rule: whether `peek` may remove the task
    /// at position `i` of the storage order.
    spec fn may_pick(&self, i: int) -> bool;

    /// Creates an empty instance.
    fn new() -> (r: Self)
        ensures
            r.inv(),
            r.tasks() == Seq::<Task<Self::H>>::empty(),
    ;

    /// Inserts a task. Insertion appends to the storage order and never
    /// fails.
    fn add(&mut self, task: Task<Self::H>)
        requires
            old(self).inv(),
            task.wf(),
        ensures
            final(self).inv(),
            final(self).tasks() == old(self).tasks().push(task),
    ;

    /// Removes and returns the next task chosen by the policy; returns
    /// nothing, changing nothing, if and only if the list is empty.
    fn peek(&mut self) -> (r: Option<Task<Self::H>>)
        requires
            old(self).inv(),
        ensures
            final(self).inv(),
            old(self).tasks().len() == 0 ==> r is None && *final(self) == *old(self),
            old(self).tasks().len() > 0 ==> exists|i: int|
                0 <= i < old(self).tasks().len() && #[trigger] old(self).may_pick(i)
                && r == Some(old(self).tasks()[i])
                && old(self).tasks()[i].wf()
                && final(self).tasks() == old(self).tasks().remove(i),
    ;

    /// True if and only if no tasks are held.
    fn is_empty(&self) -> (r: bool)
        requires
            self.inv(),
        ensures
            r == (self.tasks().len() == 0),
    ;
}

} // verus!
