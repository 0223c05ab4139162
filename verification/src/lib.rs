pub mod interest;
pub mod net;
pub mod reactor;
pub mod ready;
pub mod runtime;
pub mod scheduler;
pub mod task;

use vstd::prelude::*;

use crate::runtime::Runtime;
use crate::task::{Computation, Harness, JoinHandle, Task, TaskState};

verus! {

/// Spawn a computation on a runtime: allocate its task record, append the
/// new task to the ready queue, and hand back the join handle for its
/// eventual output. The runtime is passed explicitly; keeping an ambient
/// "current runtime" slot per thread is the business of the program
/// around this core.
pub fn spawn(rt: &mut Runtime, computation: Computation) -> (h: JoinHandle)
    requires
        old(rt).wf(),
        old(rt).scheduler.tasks.len() < usize::MAX,
        old(rt).scheduler.queue.len() < usize::MAX,
    ensures
        final(rt).wf(),
        final(rt).scheduler.tasks@ == old(rt).scheduler.tasks@.push(
            Harness { computation, state: TaskState::InProgress },
        ),
        final(rt).scheduler.queue@ == old(rt).scheduler.queue@.push(
            Task { id: old(rt).scheduler.tasks.len() },
        ),
        final(rt).scheduler.current == old(rt).scheduler.current,
        final(rt).reactor == old(rt).reactor,
        h.task.id == old(rt).scheduler.tasks.len(),
{
    rt.spawn(computation)
}

} // verus!
