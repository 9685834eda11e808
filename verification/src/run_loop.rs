//! The cooperative task scheduler.
//!
//! A task is any value that can be polled once per loop iteration with a
//! mutable shared context and reports whether it wants to be polled again.
//! The schedule holds tasks in insertion order, polls each exactly once per
//! `run`, removes those that report `Done` immediately after their poll, and
//! reports `Done` itself only once its task list is empty.

use vstd::prelude::*;

use crate::ring::filter_by;

verus! {

/// What a task reports after one poll: `Pending` to be polled again on the
/// next iteration, `Done` to be dropped from the schedule.
pub enum TaskStatus {
    Pending,
    Done,
}

/// A cooperative, non-blocking unit of work.  Implementations are supplied
/// by the application.  `poll_spec` names the poll relation: which task
/// value and status one poll of a given task can leave behind; `run` of a
/// verified implementation is proved to stay within it, and the scheduler's
/// contract is stated over it.  An implementation that states nothing keeps
/// the default relation, which promises nothing of its polls.
pub trait Task<Context>: Sized {
    open spec fn poll_spec(pre: Self, post: Self, status: TaskStatus) -> bool {
        true
    }

    fn run(&mut self, cx: &mut Context) -> (r: TaskStatus)
        ensures
            Self::poll_spec(*old(self), *final(self), r),
    ;
}

/// Which positions of a status sequence reported `Pending`.
pub open spec fn pending_mask(statuses: Seq<TaskStatus>) -> Seq<bool> {
    Seq::new(statuses.len(), |i: int| statuses[i] is Pending)
}

/// The outcomes one `run` call can produce for the task list `pre`: each
/// task polled exactly once, in order, leaving the task value `polled[i]`
/// and the status `statuses[i]`, each a possible poll of `pre[i]`.
pub open spec fn run_polls<Context, T: Task<Context>>(
    pre: Seq<T>,
    polled: Seq<T>,
    statuses: Seq<TaskStatus>,
) -> bool {
    &&& polled.len() == pre.len()
    &&& statuses.len() == pre.len()
    &&& forall|i: int| 0 <= i < pre.len() ==> T::poll_spec(pre[i], polled[i], statuses[i])
}

/// A task whose every possible poll reports `Done` is dropped by the `run`
/// call that polled it: its position is not marked `Pending`, so it is not
/// among the kept tasks and no later `run` call polls it again.
pub proof fn lemma_done_task_is_dropped<Context, T: Task<Context>>(
    pre: Seq<T>,
    polled: Seq<T>,
    statuses: Seq<TaskStatus>,
    i: int,
)
    requires
        run_polls(pre, polled, statuses),
        0 <= i < pre.len(),
        forall|post: T, st: TaskStatus| T::poll_spec(pre[i], post, st) ==> st is Done,
    ensures
        statuses[i] is Done,
        !pending_mask(statuses)[i],
{
    assert(T::poll_spec(pre[i], polled[i], statuses[i]));
}

/// A lightweight task wrapping a closure over the shared context, so ad hoc
/// behaviors need not define a full task type.
pub struct FnTask<Context, F: Fn(&mut Context) -> TaskStatus> {
    f: F,
    cx: core::marker::PhantomData<Context>,
}

impl<Context, F: Fn(&mut Context) -> TaskStatus> FnTask<Context, F> {
    /// The closure must be callable on any context value.
    #[verifier::type_invariant]
    closed spec fn callable(&self) -> bool {
        forall|c: &mut Context| call_requires(self.f, (c,))
    }

    /// The wrapped closure.
    pub closed spec fn closure(&self) -> F {
        self.f
    }

    pub fn new(f: F) -> (r: FnTask<Context, F>)
        requires
            forall|c: &mut Context| call_requires(f, (c,)),
        ensures
            r.closure() == f,
    {
        FnTask { f, cx: core::marker::PhantomData }
    }
}

impl<Context, F: Fn(&mut Context) -> TaskStatus> Task<Context> for FnTask<Context, F> {
    /// A poll leaves the wrapper unchanged and reports exactly what the
    /// wrapped closure returned for the polled context.
    open spec fn poll_spec(pre: Self, post: Self, status: TaskStatus) -> bool {
        &&& post == pre
        &&& exists|c: &mut Context| call_ensures(pre.closure(), (c,), status)
    }

    fn run(&mut self, cx: &mut Context) -> (r: TaskStatus) {
        proof {
            use_type_invariant(&*self);
        }
        let r = (self.f)(cx);
        proof {
            assert(exists|c: &mut Context| call_ensures(self.f, (c,), r));
            assert(self.closure() == self.f);
        }
        r
    }
}

/// An ordered list of tasks, polled once each per `run` call.
pub struct Schedule<T, Context> where T: Task<Context> {
    tasks: Vec<T>,
    cx: core::marker::PhantomData<Context>,
}

impl<T: Task<Context>, Context> View for Schedule<T, Context> {
    type V = Seq<T>;

    /// The tasks still scheduled, in insertion order.
    closed spec fn view(&self) -> Seq<T> {
        self.tasks@
    }
}

impl<T: Task<Context>, Context> Schedule<T, Context> {
    pub fn push(&mut self, task: T)
        ensures
            final(self)@ == old(self)@.push(task),
    {
        self.tasks.push(task);
    }

    /// Applies one poll's outcome: a task that reported `Pending` is kept at
    /// the back of the kept list, one that reported `Done` is dropped.
    fn apply_poll_outcome(kept: &mut Vec<T>, task: T, status: TaskStatus)
        ensures
            status is Pending ==> final(kept)@ == old(kept)@.push(task),
            status is Done ==> final(kept)@ == old(kept)@,
    {
        match status {
            TaskStatus::Pending => kept.push(task),
            TaskStatus::Done => {},
        }
    }

    /// Synchronously polls every currently-held task exactly once, in list
    /// order; exactly the tasks whose poll reported `Pending` stay, in their
    /// relative order, so a task reporting `Done` is removed immediately
    /// after its poll and no later `run` call ever polls it again.  Reports
    /// `Done` exactly when the task list has become empty.
    #[verifier::loop_isolation(false)]
    pub fn run(&mut self, cx: &mut Context) -> (r: TaskStatus)
        ensures
            final(self)@.len() <= old(self)@.len(),
            (r is Done) == (final(self)@.len() == 0),
            exists|polled: Seq<T>, statuses: Seq<TaskStatus>|
                #![trigger run_polls(old(self)@, polled, statuses)]
                run_polls(old(self)@, polled, statuses) && final(self)@ == filter_by(
                    polled,
                    pending_mask(statuses),
                ),
    {
        let ghost pre = self@;
        let total = self.tasks.len();
        let mut kept: Vec<T> = Vec::new();
        let ghost mut polled: Seq<T> = Seq::empty();
        let ghost mut statuses: Seq<TaskStatus> = Seq::empty();
        proof {
            assert(pending_mask(Seq::<TaskStatus>::empty()) =~= Seq::<bool>::empty());
            assert(pre.skip(0) =~= pre);
        }
        let mut i: usize = 0;
        while i < total
            invariant
                i <= total,
                self.tasks@ == pre.skip(i as int),
                polled.len() == i,
                statuses.len() == i,
                kept@.len() <= i,
                forall|k: int| 0 <= k < i ==> T::poll_spec(pre[k], polled[k], statuses[k]),
                kept@ == filter_by(polled, pending_mask(statuses)),
            decreases total - i,
        {
            let mut task = self.tasks.remove(0);
            proof {
                assert(task == pre[i as int]);
                assert(self.tasks@ =~= pre.skip(i + 1));
            }
            let status = task.run(cx);
            let ghost polled0 = polled;
            let ghost statuses0 = statuses;
            let ghost kept0 = kept@;
            proof {
                polled = polled.push(task);
                statuses = statuses.push(status);
                assert(polled.drop_last() =~= polled0);
                assert(statuses.drop_last() =~= statuses0);
                assert(pending_mask(statuses).drop_last() =~= pending_mask(statuses0));
            }
            Self::apply_poll_outcome(&mut kept, task, status);
            proof {
                assert(kept@ =~= filter_by(polled, pending_mask(statuses)));
            }
            i += 1;
        }
        self.tasks = kept;
        proof {
            assert(run_polls::<Context, T>(pre, polled, statuses));
        }
        if self.tasks.len() == 0 {
            TaskStatus::Done
        } else {
            TaskStatus::Pending
        }
    }
}

impl<T: Task<Context>, Context> Task<Context> for Schedule<T, Context> {
    /// A schedule is itself a task, so schedules can nest: a poll never grows
    /// its task list and reports `Done` exactly when the list emptied.
    open spec fn poll_spec(pre: Self, post: Self, status: TaskStatus) -> bool {
        &&& post@.len() <= pre@.len()
        &&& (status is Done) == (post@.len() == 0)
    }

    fn run(&mut self, cx: &mut Context) -> TaskStatus {
        Schedule::run(self, cx)
    }
}

impl<T: Task<Context>, Context> Default for Schedule<T, Context> {
    /// The empty schedule.
    fn default() -> (r: Self)
        ensures
            r@ == Seq::<T>::empty(),
    {
        let r = Schedule { tasks: Vec::new(), cx: core::marker::PhantomData };
        proof {
            assert(r@ =~= Seq::<T>::empty());
        }
        r
    }
}

} // verus!
