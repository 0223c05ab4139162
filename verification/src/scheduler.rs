use vstd::prelude::*;

use crate::task;
use crate::task::{Computation, Harness, JoinHandle, Task, TaskState};

verus! {

/// The cooperative scheduler: the table of task records, the FIFO queue of
/// tasks that are ready to be polled, and the task currently being polled.
/// All state is mutated from the single runtime thread, through `&mut`.
pub struct Scheduler {
    /// Backing storage of every spawned task, addressed by `Task::id`.
    pub tasks: Vec<Harness>,
    /// Queue of tasks scheduled to run, strict FIFO.
    pub queue: Vec<Task>,
    /// The task whose poll is in progress, if any; lets a readiness wait
    /// issued during that poll resolve its waker to the task.
    pub current: Option<Task>,
}

impl Scheduler {
    pub fn new() -> (s: Scheduler)
        ensures
            s.tasks@ == Seq::<Harness>::empty(),
            s.queue@ == Seq::<Task>::empty(),
            s.current is None,
    {
        Scheduler { tasks: Vec::new(), queue: Vec::new(), current: None }
    }

    /// Create the task record and join handle for a computation and append
    /// the new task to the ready queue.
    pub fn spawn(&mut self, computation: Computation) -> (h: JoinHandle)
        requires
            old(self).tasks.len() < usize::MAX,
            old(self).queue.len() < usize::MAX,
        ensures
            final(self).tasks@ == old(self).tasks@.push(
                Harness { computation, state: TaskState::InProgress },
            ),
            final(self).queue@ == old(self).queue@.push(Task { id: old(self).tasks.len() }),
            final(self).current == old(self).current,
            h.task.id == old(self).tasks.len(),
    {
        let (new_task, handle) = task::spawn(&mut self.tasks, computation);
        self.queue.push(new_task);
        handle
    }

    /// Append an already-existing task to the ready queue; the reactor uses
    /// this to reschedule a parked task when readiness arrives.
    pub fn schedule(&mut self, scheduled: Task)
        requires
            old(self).queue.len() < usize::MAX,
        ensures
            final(self).queue@ == old(self).queue@.push(scheduled),
            final(self).tasks == old(self).tasks,
            final(self).current == old(self).current,
    {
        self.queue.push(scheduled);
    }

    /// Pop the front of the FIFO queue: the next task to poll, if any.
    pub fn next_scheduled_task(&mut self) -> (next: Option<Task>)
        ensures
            final(self).tasks == old(self).tasks,
            final(self).current == old(self).current,
            old(self).queue.len() == 0 ==> next is None && final(self).queue == old(self).queue,
            old(self).queue.len() > 0 ==> next == Some(old(self).queue@[0])
                && final(self).queue@ == old(self).queue@.remove(0),
    {
        if self.queue.len() == 0 {
            None
        } else {
            Some(self.queue.remove(0))
        }
    }

    /// Record the task whose poll is about to run.
    pub fn set_current(&mut self, running: Task)
        ensures
            *final(self) == (Scheduler { current: Some(running), ..*old(self) }),
    {
        self.current = Some(running);
    }

    /// Forget the current task once its poll has returned.
    pub fn unset_current(&mut self)
        ensures
            *final(self) == (Scheduler { current: None, ..*old(self) }),
    {
        self.current = None;
    }

    /// Resolve a waker to the task it belongs to. Waker identity is the
    /// task's stable index, so a waker matches exactly when it names the
    /// task whose poll is in progress; a waker seen outside any poll (or
    /// belonging to another task) resolves to nothing.
    pub fn waker_to_task(&self, waker: Task) -> (resolved: Option<Task>)
        ensures
            resolved == if self.current == Some(waker) {
                Some(waker)
            } else {
                None::<Task>
            },
    {
        match self.current {
            Some(current_task) => {
                if current_task.id == waker.id {
                    Some(waker)
                } else {
                    None
                }
            }
            None => None,
        }
    }
}


impl JoinHandle {
    /// Consume the spawned computation's output. Yields the output exactly
    /// once: `Some` on the first call after the task completed, `None`
    /// while the task is still in progress and forever after the output
    /// has been taken.
    pub fn try_join(&self, scheduler: &mut Scheduler) -> (r: Option<u64>)
        requires
            self.task.id < old(scheduler).tasks.len(),
        ensures
            final(scheduler).queue == old(scheduler).queue,
            final(scheduler).current == old(scheduler).current,
            old(scheduler).tasks@[self.task.id as int].state is Complete ==> r == Some(
                old(scheduler).tasks@[self.task.id as int].state->0,
            ) && final(scheduler).tasks@ == old(scheduler).tasks@.update(
                self.task.id as int,
                Harness {
                    computation: old(scheduler).tasks@[self.task.id as int].computation,
                    state: TaskState::Joined,
                },
            ),
            !(old(scheduler).tasks@[self.task.id as int].state is Complete) ==> r is None
                && final(scheduler).tasks == old(scheduler).tasks,
    {
        let record = scheduler.tasks[self.task.id];
        match record.state {
            TaskState::Complete(v) => {
                scheduler.tasks.set(
                    self.task.id,
                    Harness { computation: record.computation, state: TaskState::Joined },
                );
                Some(v)
            },
            TaskState::InProgress => None,
            TaskState::Joined => None,
        }
    }
}
} // verus!
