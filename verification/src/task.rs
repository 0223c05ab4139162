use vstd::prelude::*;

use crate::ready::Ready;

verus! {

/// Opaque handle to one spawned computation. Every holder of the same
/// handle (the run queue, a resource's waiter slot, a join handle) names
/// the same task record by its stable index in the task table.
#[derive(Clone, Copy, Debug, PartialEq, Eq, Structural)]
pub struct Task {
    pub id: usize,
}

/// One suspended computation. The runtime drives computations drawn from
/// this fixed instruction set; each either completes immediately, waits
/// for readiness on a registered resource, raises readiness itself, or
/// accepts one connection-like event and spawns a task for it.
#[derive(Clone, Copy, Debug, PartialEq, Eq, Structural)]
pub enum Computation {
    /// Completes on its first poll with the given output.
    Ready(u64),
    /// Parks on the read-waiter slot of the resource at `token` until the
    /// resource becomes readable, then completes with `value`.
    WaitReadable { token: usize, value: u64 },
    /// Reports the given readiness to the resource at `token` (waking any
    /// parked waiters through the scheduler), then completes with `value`.
    Signal { token: usize, bits: Ready, value: u64 },
    /// Parks until the resource at `token` is readable, then spawns one
    /// new task `Ready(value)` for the accepted connection and completes
    /// with `value`.
    AcceptOnce { token: usize, value: u64 },
}

impl Computation {
    /// The output this computation yields when it completes.
    pub open spec fn output(self) -> u64 {
        match self {
            Computation::Ready(v) => v,
            Computation::WaitReadable { value, .. } => value,
            Computation::Signal { value, .. } => value,
            Computation::AcceptOnce { value, .. } => value,
        }
    }

    /// Upper bound on the scheduling work one poll of this computation can
    /// create beyond consuming its own queue slot: a signal may wake both
    /// waiter slots of a resource, an accept spawns one new ready task.
    /// The run loop's termination measure is built on this.
    pub open spec fn potential(self) -> nat {
        match self {
            Computation::Ready(_) => 0,
            Computation::WaitReadable { .. } => 0,
            Computation::Signal { .. } => 2,
            Computation::AcceptOnce { .. } => 1,
        }
    }
}

/// Progress of one spawned computation.
#[derive(Clone, Copy, Debug, PartialEq, Eq, Structural)]
pub enum TaskState {
    /// Not yet complete; the task may be queued, parked, or orphaned.
    InProgress,
    /// Complete with this output, not yet consumed by the join handle.
    Complete(u64),
    /// The output has been consumed.
    Joined,
}

/// Concrete storage backing one Task: the computation together with its
/// progress. Records live in the scheduler's task table and are addressed
/// by the task's stable index.
#[derive(Clone, Copy, Debug, PartialEq, Eq, Structural)]
pub struct Harness {
    pub computation: Computation,
    pub state: TaskState,
}

impl Harness {
    /// A fresh record for a computation that has not run yet.
    pub fn new(computation: Computation) -> (h: Harness)
        ensures
            h == (Harness { computation, state: TaskState::InProgress }),
    {
        Harness { computation, state: TaskState::InProgress }
    }

    /// The part of the termination measure this record contributes.
    pub open spec fn weight(self) -> nat {
        if self.state is InProgress {
            self.computation.potential()
        } else {
            0
        }
    }
}

/// Caller-facing handle to a spawned computation's eventual result,
/// decoupled from the scheduling of the task itself.
#[derive(Clone, Copy, Debug, PartialEq, Eq, Structural)]
pub struct JoinHandle {
    pub task: Task,
}

/// Allocate the backing record for a computation in the task table and
/// hand back the type-agnostic task handle together with the caller's
/// join handle; the new task is not yet scheduled.
pub fn spawn(tasks: &mut Vec<Harness>, computation: Computation) -> (r: (Task, JoinHandle))
    requires
        old(tasks).len() < usize::MAX,
    ensures
        final(tasks)@ == old(tasks)@.push(Harness { computation, state: TaskState::InProgress }),
        r.0.id == old(tasks).len(),
        r.1.task == r.0,
{
    let id = tasks.len();
    tasks.push(Harness::new(computation));
    let task = Task { id };
    (task, JoinHandle { task })
}

} // verus!
