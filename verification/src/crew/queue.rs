//! FO task queue: one task executing at a time, the rest waiting in order.
//!
//! How long a task takes once started depends on the First Officer's pace,
//! which the caller supplies as a function from a task's base duration to
//! the time it will actually take.
use vstd::prelude::*;
use std::collections::VecDeque;
use crate::crew::task::Task;
use crate::sim_core::time::Duration;

verus! {

/// A task currently being worked, with how much time remains at the
/// FO's actual pace.
#[derive(Debug, Clone, PartialEq)]
pub struct Executing {
    pub task: Task,
    pub remaining: Duration,
}

#[derive(Debug, Clone, PartialEq)]
pub struct TaskQueue {
    executing: Option<Executing>,
    pending: VecDeque<Task>,
}

/// `pace` can be asked about any duration.
pub open spec fn pace_total<P: Fn(Duration) -> Duration>(pace: P) -> bool {
    forall|d: Duration| call_requires(pace, (d,))
}

/// `e` is `task`, just started, with the time `pace` gives it.
pub open spec fn started<P: Fn(Duration) -> Duration>(e: Executing, task: Task, pace: P) -> bool {
    e.task == task && call_ensures(pace, (task.base_duration,), e.remaining)
}

/// `after` is `before` once the FO has worked for `dt` nanoseconds: with
/// nothing executing nothing changes; a task with no more than `dt` left
/// completes and leaves the lineup, and the next pending task, if any,
/// starts at the FO's pace; otherwise the executing task's remaining time
/// counts down by `dt`.
pub open spec fn worked<P: Fn(Duration) -> Duration>(
    before: TaskQueue,
    after: TaskQueue,
    dt: nat,
    pace: P,
) -> bool {
    match before.spec_executing() {
        None => after.spec_executing().is_none() && after.spec_pending() == before.spec_pending(),
        Some(e) => if e.remaining.nanos <= dt {
            &&& after.lineup() == before.lineup().drop_first()
            &&& (before.spec_pending().len() > 0 ==> after.spec_executing().is_some() && started(
                after.spec_executing().unwrap(),
                before.spec_pending()[0],
                pace,
            ))
            &&& (before.spec_pending().len() == 0 ==> after.spec_executing().is_none())
        } else {
            &&& after.spec_executing() == Some(
                Executing {
                    task: e.task,
                    remaining: Duration { nanos: (e.remaining.nanos - dt) as u128 },
                },
            )
            &&& after.spec_pending() == before.spec_pending()
        },
    }
}

impl TaskQueue {
    pub closed spec fn spec_executing(self) -> Option<Executing> {
        self.executing
    }

    pub closed spec fn spec_pending(self) -> Seq<Task> {
        self.pending@
    }

    /// Every task in the queue in the order it will be worked: the
    /// executing one first, then the pending ones.
    pub open spec fn lineup(self) -> Seq<Task> {
        match self.spec_executing() {
            Some(e) => seq![e.task] + self.spec_pending(),
            None => self.spec_pending(),
        }
    }

    /// Nothing waits while the FO is idle.
    pub open spec fn wf(self) -> bool {
        self.spec_executing().is_none() ==> self.spec_pending().len() == 0
    }

    pub fn new() -> (r: TaskQueue)
        ensures
            r.wf(),
            r.spec_executing().is_none(),
            r.spec_pending().len() == 0,
    {
        TaskQueue { executing: None, pending: VecDeque::new() }
    }

    /// Add a task to the back of the queue. If nothing is executing, it
    /// starts immediately at the FO's pace.
    pub fn delegate<P: Fn(Duration) -> Duration>(&mut self, task: Task, pace: &P)
        requires
            old(self).wf(),
            pace_total(*pace),
        ensures
            final(self).wf(),
            final(self).lineup() == old(self).lineup().push(task),
            old(self).spec_executing().is_none() ==> {
                &&& final(self).spec_executing().is_some()
                &&& started(final(self).spec_executing().unwrap(), task, *pace)
                &&& final(self).spec_pending().len() == 0
            },
            old(self).spec_executing().is_some() ==> {
                &&& final(self).spec_executing() == old(self).spec_executing()
                &&& final(self).spec_pending() == old(self).spec_pending().push(task)
            },
    {
        if self.executing.is_none() {
            let remaining = pace(task.base_duration);
            self.executing = Some(Executing { task, remaining });
            assert(self.lineup() =~= old(self).lineup().push(task));
        } else {
            self.pending.push_back(task);
            assert(self.lineup() =~= old(self).lineup().push(task));
        }
    }

    pub fn executing(&self) -> (r: Option<&Executing>)
        ensures
            match self.spec_executing() {
                Some(e) => r == Some(&e),
                None => r.is_none(),
            },
    {
        self.executing.as_ref()
    }

    /// The tasks waiting behind the executing one, in order.
    pub fn pending(&self) -> (r: &VecDeque<Task>)
        ensures
            r@ == self.spec_pending(),
    {
        &self.pending
    }

    /// Advance the executing task's remaining time by `dt`. When it
    /// completes, the next pending task (if any) starts at the FO's pace.
    /// Returns the completed task, if one finished this tick.
    pub fn integrate<P: Fn(Duration) -> Duration>(&mut self, dt: Duration, pace: &P) -> (r:
        Option<Task>)
        requires
            old(self).wf(),
            pace_total(*pace),
        ensures
            final(self).wf(),
            worked(*old(self), *final(self), dt.nanos as nat, *pace),
            r == match old(self).spec_executing() {
                Some(e) => if e.remaining.nanos <= dt.nanos {
                    Some(e.task)
                } else {
                    None
                },
                None => None,
            },
    {
        match self.executing.take() {
            None => None,
            Some(current) => {
                if current.remaining.nanos <= dt.nanos {
                    let completed = current.task;
                    match self.pending.pop_front() {
                        Some(next) => {
                            let remaining = pace(next.base_duration);
                            self.executing = Some(Executing { task: next, remaining });
                        },
                        None => {},
                    }
                    assert(self.lineup() =~= old(self).lineup().drop_first());
                    Some(completed)
                } else {
                    let remaining = Duration { nanos: current.remaining.nanos - dt.nanos };
                    self.executing = Some(Executing { task: current.task, remaining });
                    None
                }
            },
        }
    }
}

impl Default for TaskQueue {
    fn default() -> (r: TaskQueue)
        ensures
            r.wf(),
            r.spec_executing().is_none(),
            r.spec_pending().len() == 0,
    {
        TaskQueue::new()
    }
}

} // verus!
