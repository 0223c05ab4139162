use vstd::prelude::*;

use crate::reactor::{add_readiness_spec, Event, Reactor, Registration, Resource, WaitPoll};
use crate::ready::Ready;
use crate::scheduler::Scheduler;
use crate::task::{Computation, Harness, JoinHandle, Task, TaskState};

verus! {

/// Whether `token` names a live resource in the registry view.
pub open spec fn token_live(resources: Seq<Option<Resource>>, token: usize) -> bool {
    token < resources.len() && resources[token as int] is Some
}

/// The record of a task that has just completed: same computation, output
/// recorded and waiting for the join handle.
pub open spec fn completed(comp: Computation) -> Harness {
    Harness { computation: comp, state: TaskState::Complete(comp.output()) }
}

/// How one poll of task `t` takes the executor from one state to the next,
/// over the views of the task table, the run queue (with `t` already popped
/// off its front) and the resource registry.
///
/// - An immediately-ready computation completes.
/// - A readiness wait completes if its resource is ready, parks `t` in the
///   waiter slot otherwise (replacing any previous waiter), and is left
///   suspended for good if its token is no longer registered: a wakeup for
///   it could never be delivered.
/// - A signal reports readiness to its resource, waking parked waiters
///   through the scheduler exactly as a reactor event would, and completes.
/// - A single accept waits like a readiness wait, and on readiness spawns
///   one fresh immediately-ready task for the accepted connection before
///   completing.
pub open spec fn poll_effect(
    ts: Seq<Harness>,
    q: Seq<Task>,
    rs: Seq<Option<Resource>>,
    t: Task,
    ts2: Seq<Harness>,
    q2: Seq<Task>,
    rs2: Seq<Option<Resource>>,
) -> bool {
    let comp = ts[t.id as int].computation;
    match comp {
        Computation::Ready(_) => {
            ts2 == ts.update(t.id as int, completed(comp)) && q2 == q && rs2 == rs
        },
        Computation::WaitReadable { token, .. } => {
            if !token_live(rs, token) {
                ts2 == ts && q2 == q && rs2 == rs
            } else {
                let res = rs[token as int]->0;
                if res.readiness.spec_is_readable() {
                    ts2 == ts.update(t.id as int, completed(comp)) && q2 == q && rs2 == rs
                } else {
                    ts2 == ts && q2 == q && rs2 == rs.update(
                        token as int,
                        Some(Resource { read_task: Some(t), ..res }),
                    )
                }
            }
        },
        Computation::Signal { token, bits, .. } => {
            if !token_live(rs, token) {
                ts2 == ts.update(t.id as int, completed(comp)) && q2 == q && rs2 == rs
            } else {
                let effect = add_readiness_spec(rs[token as int]->0, q, bits);
                ts2 == ts.update(t.id as int, completed(comp)) && q2 == effect.1 && rs2
                    == rs.update(token as int, Some(effect.0))
            }
        },
        Computation::AcceptOnce { token, value } => {
            if !token_live(rs, token) {
                ts2 == ts && q2 == q && rs2 == rs
            } else {
                let res = rs[token as int]->0;
                if res.readiness.spec_is_readable() {
                    ts2 == ts.update(t.id as int, completed(comp)).push(
                        Harness { computation: Computation::Ready(value), state: TaskState::InProgress },
                    ) && q2 == q.push(Task { id: ts.len() as usize }) && rs2 == rs
                } else {
                    ts2 == ts && q2 == q && rs2 == rs.update(
                        token as int,
                        Some(Resource { read_task: Some(t), ..res }),
                    )
                }
            }
        },
    }
}

impl Task {
    /// Poll the task once, dispatching on its computation. The caller must
    /// have marked it current, and a task is never polled again once
    /// complete or joined.
    pub fn poll(&self, scheduler: &mut Scheduler, reactor: &mut Reactor)
        requires
            self.id < old(scheduler).tasks.len(),
            old(scheduler).tasks@[self.id as int].state is InProgress,
            old(scheduler).current == Some(*self),
            old(scheduler).queue.len() + 2 <= usize::MAX,
            old(scheduler).tasks.len() < usize::MAX,
        ensures
            poll_effect(
                old(scheduler).tasks@,
                old(scheduler).queue@,
                old(reactor).resources@,
                *self,
                final(scheduler).tasks@,
                final(scheduler).queue@,
                final(reactor).resources@,
            ),
            final(scheduler).current == old(scheduler).current,
    {
        let record = self.scheduler_record(scheduler);
        match record.computation {
            Computation::Ready(value) => {
                self.complete(scheduler, value);
            },
            Computation::WaitReadable { token, value } => {
                if token < reactor.resources.len() && reactor.resources[token].is_some() {
                    let registration = Registration { token };
                    match registration.poll_read_ready(scheduler, reactor) {
                        WaitPoll::Ready(_) => {
                            self.complete(scheduler, value);
                        },
                        WaitPoll::Pending => {},
                        WaitPoll::NoWaiter => {},
                    }
                }
            },
            Computation::Signal { token, bits, value } => {
                if token < reactor.resources.len() && reactor.resources[token].is_some() {
                    let mut res = reactor.resources[token].unwrap();
                    res.add_readiness(scheduler, bits);
                    reactor.resources.set(token, Some(res));
                }
                self.complete(scheduler, value);
            },
            Computation::AcceptOnce { token, value } => {
                if token < reactor.resources.len() && reactor.resources[token].is_some() {
                    let registration = Registration { token };
                    match registration.poll_read_ready(scheduler, reactor) {
                        WaitPoll::Ready(_) => {
                            let ghost tasks_before = scheduler.tasks@;
                            let _accepted = scheduler.spawn(Computation::Ready(value));
                            self.complete(scheduler, value);
                            proof {
                                assert(scheduler.tasks@ =~= tasks_before.update(
                                    self.id as int,
                                    completed(tasks_before[self.id as int].computation),
                                ).push(
                                    Harness {
                                        computation: Computation::Ready(value),
                                        state: TaskState::InProgress,
                                    },
                                ));
                            }
                        },
                        WaitPoll::Pending => {},
                        WaitPoll::NoWaiter => {},
                    }
                }
            },
        }
    }

    /// Fetch the task's record out of the scheduler's table.
    fn scheduler_record(&self, scheduler: &Scheduler) -> (record: Harness)
        requires
            self.id < scheduler.tasks.len(),
        ensures
            record == scheduler.tasks@[self.id as int],
    {
        scheduler.tasks[self.id]
    }

    /// Store the task's output: the first Ready result ends it.
    fn complete(&self, scheduler: &mut Scheduler, value: u64)
        requires
            self.id < old(scheduler).tasks.len(),
        ensures
            final(scheduler).tasks@ == old(scheduler).tasks@.update(
                self.id as int,
                Harness {
                    computation: old(scheduler).tasks@[self.id as int].computation,
                    state: TaskState::Complete(value),
                },
            ),
            final(scheduler).queue == old(scheduler).queue,
            final(scheduler).current == old(scheduler).current,
    {
        let record = scheduler.tasks[self.id];
        scheduler.tasks.set(
            self.id,
            Harness { computation: record.computation, state: TaskState::Complete(value) },
        );
    }
}

impl Scheduler {
    /// Poll one task: mark it current for the duration of its poll, so a
    /// readiness wait issued inside the poll can resolve its waker, then
    /// clear the slot.
    pub fn run_task(&mut self, reactor: &mut Reactor, running: Task)
        requires
            running.id < old(self).tasks.len(),
            old(self).tasks@[running.id as int].state is InProgress,
            old(self).queue.len() + 2 <= usize::MAX,
            old(self).tasks.len() < usize::MAX,
        ensures
            poll_effect(
                old(self).tasks@,
                old(self).queue@,
                old(reactor).resources@,
                running,
                final(self).tasks@,
                final(self).queue@,
                final(reactor).resources@,
            ),
            final(self).current is None,
    {
        self.set_current(running);
        running.poll(self, reactor);
        self.unset_current();
    }
}


/// The waiter parked in one direction of one registry slot, if that slot
/// holds a live resource with a parked task; `read_dir` selects the
/// read-waiter slot.
pub open spec fn waiter_at(rs: Seq<Option<Resource>>, k: int, read_dir: bool) -> Option<Task> {
    if 0 <= k < rs.len() && rs[k] is Some {
        if read_dir {
            rs[k]->0.read_task
        } else {
            rs[k]->0.write_task
        }
    } else {
        None
    }
}

/// Task-table side of the executor invariant: a recorded output is the
/// task's true output, and a task that never waits (immediately ready, or
/// a signal) is in the run queue for as long as it is in progress, so the
/// run loop cannot leave it behind.
pub open spec fn tasks_wf(ts: Seq<Harness>, q: Seq<Task>) -> bool {
    &&& forall|i: int|
        0 <= i < ts.len() && (#[trigger] ts[i]).state is Complete ==> ts[i].state->0
            == ts[i].computation.output()
    &&& forall|i: int|
        0 <= i < ts.len() && (#[trigger] ts[i]).state is InProgress && (ts[i].computation is Ready
            || ts[i].computation is Signal) ==> q.contains(Task { id: i as usize })
}

/// Run-queue side of the executor invariant: every queued task is a live,
/// in-progress task, and no task is queued twice.
pub open spec fn queue_wf(ts: Seq<Harness>, q: Seq<Task>) -> bool {
    &&& q.no_duplicates()
    &&& forall|i: int|
        0 <= i < q.len() ==> (#[trigger] q[i]).id < ts.len() && ts[q[i].id as int].state
            is InProgress
}

/// Reactor side of the executor invariant: every parked waiter is a live,
/// in-progress task that is not also queued, no task is parked in two
/// slots, and a waiter is only parked while its direction is not ready
/// (it parked exactly because an attempt would have blocked).
pub open spec fn waiters_wf(ts: Seq<Harness>, q: Seq<Task>, rs: Seq<Option<Resource>>) -> bool {
    &&& forall|k: int, d: bool|
        #[trigger] waiter_at(rs, k, d) is Some ==> waiter_at(rs, k, d)->0.id < ts.len()
            && ts[waiter_at(rs, k, d)->0.id as int].state is InProgress && !q.contains(
            waiter_at(rs, k, d)->0,
        )
    &&& forall|k1: int, d1: bool, k2: int, d2: bool|
        #[trigger] waiter_at(rs, k1, d1) is Some && #[trigger] waiter_at(rs, k2, d2) is Some && (k1
            != k2 || d1 != d2) ==> waiter_at(rs, k1, d1) != waiter_at(rs, k2, d2)
    &&& forall|k: int|
        0 <= k < rs.len() && (#[trigger] rs[k]) is Some ==> (rs[k]->0.read_task is Some
            ==> !rs[k]->0.readiness.spec_is_readable()) && (rs[k]->0.write_task is Some
            ==> !rs[k]->0.readiness.spec_is_writable())
}

/// The whole executor invariant, over the views of the task table, the
/// run queue and the resource registry. Constructors establish it and
/// every runtime operation preserves it.
pub open spec fn executor_wf(ts: Seq<Harness>, q: Seq<Task>, rs: Seq<Option<Resource>>) -> bool {
    tasks_wf(ts, q) && queue_wf(ts, q) && waiters_wf(ts, q, rs)
}

/// Total scheduling work the in-progress tasks can still create; together
/// with the queue length this bounds how long the run loop can go on.
pub open spec fn weight_sum(ts: Seq<Harness>) -> nat
    decreases ts.len(),
{
    if ts.len() == 0 {
        0
    } else {
        weight_sum(ts.drop_last()) + ts.last().weight()
    }
}

proof fn lemma_weight_sum_push(ts: Seq<Harness>, h: Harness)
    ensures
        weight_sum(ts.push(h)) == weight_sum(ts) + h.weight(),
{
    assert(ts.push(h).drop_last() =~= ts);
}

proof fn lemma_weight_sum_update(ts: Seq<Harness>, i: int, h: Harness)
    requires
        0 <= i < ts.len(),
    ensures
        weight_sum(ts.update(i, h)) + ts[i].weight() == weight_sum(ts) + h.weight(),
    decreases ts.len(),
{
    if i == ts.len() - 1 {
        assert(ts.update(i, h).drop_last() =~= ts.drop_last());
    } else {
        lemma_weight_sum_update(ts.drop_last(), i, h);
        assert(ts.update(i, h).drop_last() =~= ts.drop_last().update(i, h));
    }
}

/// No computation can create more than two units of scheduling work, so
/// the total pending work is bounded by the table's size.
proof fn lemma_weight_sum_bound(ts: Seq<Harness>)
    ensures
        weight_sum(ts) <= 2 * ts.len(),
    decreases ts.len(),
{
    if ts.len() > 0 {
        lemma_weight_sum_bound(ts.drop_last());
    }
}

/// Facts about popping the front of a duplicate-free queue.
proof fn lemma_pop_front_facts(q: Seq<Task>, t: Task)
    requires
        q.len() > 0,
        t == q[0],
        q.no_duplicates(),
    ensures
        q.remove(0).len() == q.len() - 1,
        forall|j: int| 0 <= j < q.len() - 1 ==> q.remove(0)[j] == q[j + 1],
        !q.remove(0).contains(t),
        forall|y: Task| #[trigger] q.remove(0).contains(y) ==> q.contains(y),
        forall|y: Task| #[trigger] q.contains(y) && y != t ==> q.remove(0).contains(y),
        q.remove(0).no_duplicates(),
{
    let q1 = q.remove(0);
    assert(q1 =~= q.subrange(1, q.len() as int));
    assert forall|y: Task| #[trigger] q1.contains(y) implies q.contains(y) by {
        let j = choose|j: int| 0 <= j < q1.len() && q1[j] == y;
        assert(q[j + 1] == y);
    }
    assert forall|y: Task| #[trigger] q.contains(y) && y != t implies q1.contains(y) by {
        let j = choose|j: int| 0 <= j < q.len() && q[j] == y;
        assert(j != 0);
        assert(q1[j - 1] == y);
    }
    if q1.contains(t) {
        let j = choose|j: int| 0 <= j < q1.len() && q1[j] == t;
        assert(q[j + 1] == t && q[0] == t);
    }
}

/// Appending to a queue: what it then contains, and when it stays
/// duplicate-free.
proof fn lemma_push_contains(q: Seq<Task>, x: Task)
    ensures
        forall|y: Task| #[trigger] q.push(x).contains(y) ==> q.contains(y) || y == x,
        forall|y: Task| #[trigger] q.contains(y) ==> q.push(x).contains(y),
        q.push(x).contains(x),
        q.no_duplicates() && !q.contains(x) ==> q.push(x).no_duplicates(),
{
    assert forall|y: Task| #[trigger] q.push(x).contains(y) implies (q.contains(y) || y == x) by {
        let j = choose|j: int| 0 <= j < q.push(x).len() && q.push(x)[j] == y;
        if j < q.len() {
            assert(q[j] == y);
        }
    }
    assert forall|y: Task| q.contains(y) || y == x implies #[trigger] q.push(x).contains(y) by {
        if q.contains(y) {
            let j = choose|j: int| 0 <= j < q.len() && q[j] == y;
            assert(q.push(x)[j] == y);
        } else {
            assert(q.push(x)[q.len() as int] == y);
        }
    }
}

/// Reporting readiness to a live resource preserves the executor
/// invariant: each newly-ready direction moves its parked waiter (if any)
/// out of its slot and into the queue, exactly once, and a slot that keeps
/// its waiter is still not ready.
proof fn lemma_add_readiness_wf(
    ts: Seq<Harness>,
    q: Seq<Task>,
    rs: Seq<Option<Resource>>,
    token: usize,
    bits: Ready,
)
    requires
        executor_wf(ts, q, rs),
        token_live(rs, token),
    ensures
        ({
            let effect = add_readiness_spec(rs[token as int]->0, q, bits);
            &&& executor_wf(ts, effect.1, rs.update(token as int, Some(effect.0)))
            &&& q.len() <= effect.1.len() <= q.len() + 2
            &&& (forall|y: Task| #[trigger] q.contains(y) ==> effect.1.contains(y))
        }),
{
    let res = rs[token as int]->0;
    let effect = add_readiness_spec(res, q, bits);
    let newly = bits.spec_difference(res.readiness);
    let q_a = if newly.spec_is_readable() && res.read_task is Some {
        q.push(res.read_task->0)
    } else {
        q
    };
    let q_b = effect.1;
    let rs2 = rs.update(token as int, Some(effect.0));

    assert(waiter_at(rs, token as int, true) == res.read_task);
    assert(waiter_at(rs, token as int, false) == res.write_task);

    if newly.spec_is_readable() && res.read_task is Some {
        lemma_push_contains(q, res.read_task->0);
    }
    if newly.spec_is_writable() && res.write_task is Some {
        lemma_push_contains(q_a, res.write_task->0);
        if newly.spec_is_readable() && res.read_task is Some {
            assert(res.read_task->0 != res.write_task->0);
        }
    }

    assert(queue_wf(ts, q_b));
    assert(tasks_wf(ts, q_b));

    assert forall|k: int, d: bool| #[trigger] waiter_at(rs2, k, d) is Some implies waiter_at(
        rs2,
        k,
        d,
    )->0.id < ts.len() && ts[waiter_at(rs2, k, d)->0.id as int].state is InProgress && !q_b.contains(
        waiter_at(rs2, k, d)->0,
    ) by {
        assert(waiter_at(rs2, k, d) == waiter_at(rs, k, d));
        let v = waiter_at(rs2, k, d)->0;
        if newly.spec_is_readable() && res.read_task is Some {
            if (k, d) != (token as int, true) {
                assert(waiter_at(rs, token as int, true) is Some);
                assert(v != res.read_task->0);
            }
        }
        if newly.spec_is_writable() && res.write_task is Some {
            if (k, d) != (token as int, false) {
                assert(waiter_at(rs, token as int, false) is Some);
                assert(v != res.write_task->0);
            }
        }
    }

    assert forall|k1: int, d1: bool, k2: int, d2: bool|
        #[trigger] waiter_at(rs2, k1, d1) is Some && #[trigger] waiter_at(rs2, k2, d2) is Some && (
        k1 != k2 || d1 != d2) implies waiter_at(rs2, k1, d1) != waiter_at(rs2, k2, d2) by {
        assert(waiter_at(rs2, k1, d1) == waiter_at(rs, k1, d1));
        assert(waiter_at(rs2, k2, d2) == waiter_at(rs, k2, d2));
    }

    assert forall|k: int| 0 <= k < rs2.len() && (#[trigger] rs2[k]) is Some implies (rs2[k]->0.read_task
        is Some ==> !rs2[k]->0.readiness.spec_is_readable()) && (rs2[k]->0.write_task is Some
        ==> !rs2[k]->0.readiness.spec_is_writable()) by {
        if k == token as int {
            if effect.0.read_task is Some {
                assert(res.read_task is Some && !newly.spec_is_readable());
                assert(waiter_at(rs, token as int, true) is Some);
                assert(!res.readiness.spec_is_readable());
            }
            if effect.0.write_task is Some {
                assert(res.write_task is Some && !newly.spec_is_writable());
                assert(waiter_at(rs, token as int, false) is Some);
                assert(!res.readiness.spec_is_writable());
            }
        }
    }
}

/// One iteration of the run loop: popping the head of the queue and
/// polling it preserves the executor invariant, strictly decreases the
/// termination measure, never forgets a task record, never changes a
/// computation, and moves task states only forward.
pub proof fn lemma_run_step(
    ts: Seq<Harness>,
    q: Seq<Task>,
    rs: Seq<Option<Resource>>,
    t: Task,
    ts2: Seq<Harness>,
    q2: Seq<Task>,
    rs2: Seq<Option<Resource>>,
)
    requires
        executor_wf(ts, q, rs),
        ts.len() <= usize::MAX,
        q.len() > 0,
        t == q[0],
        poll_effect(ts, q.remove(0), rs, t, ts2, q2, rs2),
    ensures
        executor_wf(ts2, q2, rs2),
        weight_sum(ts2) + q2.len() < weight_sum(ts) + q.len(),
        ts2.len() + weight_sum(ts2) + q2.len() <= ts.len() + weight_sum(ts) + q.len(),
        ts.len() <= ts2.len(),
        forall|i: int| 0 <= i < ts.len() ==> (#[trigger] ts2[i]).computation == ts[i].computation,
        forall|i: int|
            0 <= i < ts.len() && ts[i].state is Complete ==> (#[trigger] ts2[i]).state
                == ts[i].state,
        forall|i: int|
            0 <= i < ts.len() && ts[i].state is Joined ==> (#[trigger] ts2[i]).state is Joined,
        forall|i: int|
            0 <= i < ts.len() && ts[i].state is InProgress ==> (#[trigger] ts2[i]).state
                is InProgress || ts2[i].state == TaskState::Complete(ts[i].computation.output()),
{
    let q1 = q.remove(0);
    lemma_pop_front_facts(q, t);
    assert(q.contains(t));
    let comp = ts[t.id as int].computation;
    let done = completed(comp);

    assert forall|k: int, d: bool| #[trigger] waiter_at(rs, k, d) is Some implies waiter_at(
        rs,
        k,
        d,
    )->0 != t by {
        assert(!q.contains(waiter_at(rs, k, d)->0));
    }

    assert forall|i: int|
        0 <= i < ts.len() && i != t.id && (#[trigger] ts[i]).state is InProgress && (
        ts[i].computation is Ready || ts[i].computation is Signal) implies q1.contains(
        Task { id: i as usize },
    ) by {
        assert(q.contains(Task { id: i as usize }));
        assert(Task { id: i as usize } != t);
    }

    match comp {
        Computation::Ready(_) => {
            lemma_weight_sum_update(ts, t.id as int, done);
            assert(executor_wf(ts2, q2, rs2));
        },
        Computation::WaitReadable { token, .. } => {
            if !token_live(rs, token) {
                assert(executor_wf(ts2, q2, rs2));
            } else {
                let res = rs[token as int]->0;
                if res.readiness.spec_is_readable() {
                    lemma_weight_sum_update(ts, t.id as int, done);
                    assert(executor_wf(ts2, q2, rs2));
                } else {
                    // parked: the one new waiter is `t`, fresh off the queue
                    assert forall|k: int, d: bool| #[trigger] waiter_at(rs2, k, d)
                        is Some implies waiter_at(rs2, k, d)->0.id < ts2.len() && ts2[waiter_at(
                        rs2,
                        k,
                        d,
                    )->0.id as int].state is InProgress && !q2.contains(waiter_at(rs2, k, d)->0) by {
                        if (k, d) == (token as int, true) {
                            assert(waiter_at(rs2, k, d) == Some(t));
                        } else {
                            assert(waiter_at(rs2, k, d) == waiter_at(rs, k, d));
                        }
                    }
                    assert forall|k1: int, d1: bool, k2: int, d2: bool|
                        #[trigger] waiter_at(rs2, k1, d1) is Some && #[trigger] waiter_at(
                        rs2,
                        k2,
                        d2,
                    ) is Some && (k1 != k2 || d1 != d2) implies waiter_at(rs2, k1, d1) != waiter_at(
                        rs2,
                        k2,
                        d2,
                    ) by {
                        if (k1, d1) != (token as int, true) {
                            assert(waiter_at(rs2, k1, d1) == waiter_at(rs, k1, d1));
                        }
                        if (k2, d2) != (token as int, true) {
                            assert(waiter_at(rs2, k2, d2) == waiter_at(rs, k2, d2));
                        }
                    }
                    assert(executor_wf(ts2, q2, rs2));
                }
            }
        },
        Computation::Signal { token, bits, .. } => {
            lemma_weight_sum_update(ts, t.id as int, done);
            if !token_live(rs, token) {
                assert(executor_wf(ts2, q2, rs2));
            } else {
                // first complete `t`, then wake through the resource
                assert forall|k: int, d: bool| #[trigger] waiter_at(rs, k, d)
                    is Some implies waiter_at(rs, k, d)->0.id < ts2.len() && ts2[waiter_at(
                    rs,
                    k,
                    d,
                )->0.id as int].state is InProgress && !q1.contains(waiter_at(rs, k, d)->0) by {
                    assert(waiter_at(rs, k, d)->0 != t);
                }
                assert(executor_wf(ts2, q1, rs));
                lemma_add_readiness_wf(ts2, q1, rs, token, bits);
            }
        },
        Computation::AcceptOnce { token, value } => {
            if !token_live(rs, token) {
                assert(executor_wf(ts2, q2, rs2));
            } else {
                let res = rs[token as int]->0;
                if res.readiness.spec_is_readable() {
                    let fresh = Task { id: ts.len() as usize };
                    let fresh_harness = Harness {
                        computation: Computation::Ready(value),
                        state: TaskState::InProgress,
                    };
                    lemma_weight_sum_update(ts, t.id as int, done);
                    lemma_weight_sum_push(ts.update(t.id as int, done), fresh_harness);
                    lemma_push_contains(q1, fresh);
                    assert forall|j: int| 0 <= j < q1.len() implies q1[j] != fresh by {
                        assert(q1[j] == q[j + 1]);
                    }
                    assert(!q1.contains(fresh));
                    assert forall|k: int, d: bool| #[trigger] waiter_at(rs2, k, d)
                        is Some implies waiter_at(rs2, k, d)->0.id < ts2.len() && ts2[waiter_at(
                        rs2,
                        k,
                        d,
                    )->0.id as int].state is InProgress && !q2.contains(waiter_at(rs2, k, d)->0) by {
                        assert(waiter_at(rs2, k, d) == waiter_at(rs, k, d));
                        assert(waiter_at(rs, k, d)->0 != t);
                        assert(waiter_at(rs, k, d)->0.id < ts.len());
                    }
                    assert(tasks_wf(ts2, q2));
                    assert(executor_wf(ts2, q2, rs2));
                } else {
                    assert forall|k: int, d: bool| #[trigger] waiter_at(rs2, k, d)
                        is Some implies waiter_at(rs2, k, d)->0.id < ts2.len() && ts2[waiter_at(
                        rs2,
                        k,
                        d,
                    )->0.id as int].state is InProgress && !q2.contains(waiter_at(rs2, k, d)->0) by {
                        if (k, d) == (token as int, true) {
                            assert(waiter_at(rs2, k, d) == Some(t));
                        } else {
                            assert(waiter_at(rs2, k, d) == waiter_at(rs, k, d));
                        }
                    }
                    assert forall|k1: int, d1: bool, k2: int, d2: bool|
                        #[trigger] waiter_at(rs2, k1, d1) is Some && #[trigger] waiter_at(
                        rs2,
                        k2,
                        d2,
                    ) is Some && (k1 != k2 || d1 != d2) implies waiter_at(rs2, k1, d1) != waiter_at(
                        rs2,
                        k2,
                        d2,
                    ) by {
                        if (k1, d1) != (token as int, true) {
                            assert(waiter_at(rs2, k1, d1) == waiter_at(rs, k1, d1));
                        }
                        if (k2, d2) != (token as int, true) {
                            assert(waiter_at(rs2, k2, d2) == waiter_at(rs, k2, d2));
                        }
                    }
                    assert(executor_wf(ts2, q2, rs2));
                }
            }
        },
    }
}

/// The runtime: the cooperative scheduler composed with the reactor's
/// resource registry, driven from a single thread through explicit `&mut`
/// context rather than ambient state.
pub struct Runtime {
    pub scheduler: Scheduler,
    pub reactor: Reactor,
}

impl Runtime {
    /// The executor invariant over this runtime's state; constructors
    /// establish it and every operation preserves it.
    pub open spec fn wf(self) -> bool {
        executor_wf(self.scheduler.tasks@, self.scheduler.queue@, self.reactor.resources@)
    }

    pub fn new() -> (rt: Runtime)
        ensures
            rt.wf(),
            rt.scheduler.tasks@.len() == 0,
            rt.scheduler.queue@.len() == 0,
            rt.scheduler.current is None,
            rt.reactor.resources@.len() == 0,
    {
        Runtime { scheduler: Scheduler::new(), reactor: Reactor::new() }
    }

    /// Spawn a computation on the runtime: allocate its task record and
    /// append the new task to the ready queue.
    pub fn spawn(&mut self, computation: Computation) -> (h: JoinHandle)
        requires
            old(self).wf(),
            old(self).scheduler.tasks.len() < usize::MAX,
            old(self).scheduler.queue.len() < usize::MAX,
        ensures
            final(self).wf(),
            final(self).scheduler.tasks@ == old(self).scheduler.tasks@.push(
                Harness { computation, state: TaskState::InProgress },
            ),
            final(self).scheduler.queue@ == old(self).scheduler.queue@.push(
                Task { id: old(self).scheduler.tasks.len() },
            ),
            final(self).scheduler.current == old(self).scheduler.current,
            final(self).reactor == old(self).reactor,
            h.task.id == old(self).scheduler.tasks.len(),
    {
        let ghost ts = self.scheduler.tasks@;
        let ghost q = self.scheduler.queue@;
        let ghost rs = self.reactor.resources@;
        let h = self.scheduler.spawn(computation);
        proof {
            let fresh = Task { id: ts.len() as usize };
            lemma_push_contains(q, fresh);
            assert forall|j: int| 0 <= j < q.len() implies q[j] != fresh by {
                assert(q[j].id < ts.len());
            }
            assert(!q.contains(fresh));
            assert forall|k: int, d: bool| #[trigger] waiter_at(rs, k, d) is Some implies !q.push(
                fresh,
            ).contains(waiter_at(rs, k, d)->0) by {
                assert(!q.contains(waiter_at(rs, k, d)->0));
                assert(waiter_at(rs, k, d)->0.id < ts.len());
            }
            assert(self.wf());
        }
        h
    }

    /// Drain the ready queue: pop the front task and poll it, over and
    /// over, until no task is ready, then return so the driver can block
    /// for I/O. The loop provably terminates. Afterwards the queue is
    /// empty, task records and computations are never lost or rewritten,
    /// states have only moved forward, and every task that never waits
    /// (immediately ready, or a signal) and was in progress has completed
    /// with its true output.
    pub fn run(&mut self)
        requires
            old(self).wf(),
            3 * old(self).scheduler.tasks@.len() + old(self).scheduler.queue@.len() + 2
                <= usize::MAX,
        ensures
            final(self).wf(),
            final(self).scheduler.queue@.len() == 0,
            old(self).scheduler.tasks@.len() <= final(self).scheduler.tasks@.len(),
            forall|i: int|
                0 <= i < old(self).scheduler.tasks@.len() ==> (#[trigger] final(self).scheduler.tasks@[i]).computation == old(self).scheduler.tasks@[i].computation,
            forall|i: int|
                0 <= i < old(self).scheduler.tasks@.len() && old(self).scheduler.tasks@[i].state
                    is Complete ==> (#[trigger] final(self).scheduler.tasks@[i]).state == old(self).scheduler.tasks@[i].state,
            forall|i: int|
                0 <= i < old(self).scheduler.tasks@.len() && old(self).scheduler.tasks@[i].state
                    is Joined ==> (#[trigger] final(self).scheduler.tasks@[i]).state is Joined,
            forall|i: int|
                0 <= i < old(self).scheduler.tasks@.len() && old(self).scheduler.tasks@[i].state
                    is InProgress ==> (#[trigger] final(self).scheduler.tasks@[i]).state
                    is InProgress || final(self).scheduler.tasks@[i].state == TaskState::Complete(
                    old(self).scheduler.tasks@[i].computation.output(),
                ),
            forall|i: int|
                0 <= i < old(self).scheduler.tasks@.len() && old(self).scheduler.tasks@[i].state
                    is InProgress && (old(self).scheduler.tasks@[i].computation is Ready || old(self).scheduler.tasks@[i].computation is Signal) ==> (#[trigger] final(self).scheduler.tasks@[i]).state == TaskState::Complete(
                    old(self).scheduler.tasks@[i].computation.output(),
                ),
    {
        let ghost ts0 = self.scheduler.tasks@;
        let ghost total0 = ts0.len() + weight_sum(ts0) + self.scheduler.queue@.len();
        proof {
            lemma_weight_sum_bound(ts0);
        }
        loop
            invariant
                executor_wf(self.scheduler.tasks@, self.scheduler.queue@, self.reactor.resources@),
                self.scheduler.tasks@.len() + weight_sum(self.scheduler.tasks@)
                    + self.scheduler.queue@.len() <= total0,
                total0 + 2 <= usize::MAX,
                ts0.len() <= self.scheduler.tasks@.len(),
                forall|i: int|
                    0 <= i < ts0.len() ==> (#[trigger] self.scheduler.tasks@[i]).computation
                        == ts0[i].computation,
                forall|i: int|
                    0 <= i < ts0.len() && ts0[i].state is Complete ==> (
                    #[trigger] self.scheduler.tasks@[i]).state == ts0[i].state,
                forall|i: int|
                    0 <= i < ts0.len() && ts0[i].state is Joined ==> (
                    #[trigger] self.scheduler.tasks@[i]).state is Joined,
                forall|i: int|
                    0 <= i < ts0.len() && ts0[i].state is InProgress ==> (
                    #[trigger] self.scheduler.tasks@[i]).state is InProgress
                        || self.scheduler.tasks@[i].state == TaskState::Complete(
                        ts0[i].computation.output(),
                    ),
            ensures
                self.scheduler.queue@.len() == 0,
                executor_wf(self.scheduler.tasks@, self.scheduler.queue@, self.reactor.resources@),
                ts0.len() <= self.scheduler.tasks@.len(),
                forall|i: int|
                    0 <= i < ts0.len() ==> (#[trigger] self.scheduler.tasks@[i]).computation
                        == ts0[i].computation,
                forall|i: int|
                    0 <= i < ts0.len() && ts0[i].state is Complete ==> (
                    #[trigger] self.scheduler.tasks@[i]).state == ts0[i].state,
                forall|i: int|
                    0 <= i < ts0.len() && ts0[i].state is Joined ==> (
                    #[trigger] self.scheduler.tasks@[i]).state is Joined,
                forall|i: int|
                    0 <= i < ts0.len() && ts0[i].state is InProgress ==> (
                    #[trigger] self.scheduler.tasks@[i]).state is InProgress
                        || self.scheduler.tasks@[i].state == TaskState::Complete(
                        ts0[i].computation.output(),
                    ),
            decreases weight_sum(self.scheduler.tasks@) + self.scheduler.queue@.len(),
        {
            let ghost pre_ts = self.scheduler.tasks@;
            let ghost pre_q = self.scheduler.queue@;
            let ghost pre_rs = self.reactor.resources@;
            let next = self.scheduler.next_scheduled_task();
            match next {
                None => {
                    break ;
                },
                Some(front) => {
                    self.scheduler.run_task(&mut self.reactor, front);
                    proof {
                        lemma_run_step(
                            pre_ts,
                            pre_q,
                            pre_rs,
                            front,
                            self.scheduler.tasks@,
                            self.scheduler.queue@,
                            self.reactor.resources@,
                        );
                    }
                },
            }
        }
        proof {
            assert forall|i: int|
                0 <= i < ts0.len() && ts0[i].state is InProgress && (ts0[i].computation is Ready
                    || ts0[i].computation is Signal) implies (
            #[trigger] self.scheduler.tasks@[i]).state == TaskState::Complete(
                ts0[i].computation.output(),
            ) by {
                if self.scheduler.tasks@[i].state is InProgress {
                    assert(self.scheduler.queue@.contains(Task { id: i as usize }));
                }
            }
        }
    }

    /// Run the runtime until the given computation's join handle resolves,
    /// and consume its output. In this event-free core a drain of the
    /// ready queue is the whole run: a computation that parks on a
    /// resource stays parked, and the result is `None` exactly when the
    /// computation did not complete. A computation that never waits
    /// always yields `Some` of its output.
    pub fn block_on(&mut self, computation: Computation) -> (r: Option<u64>)
        requires
            old(self).wf(),
            3 * old(self).scheduler.tasks@.len() + old(self).scheduler.queue@.len() + 6
                <= usize::MAX,
        ensures
            final(self).wf(),
            final(self).scheduler.queue@.len() == 0,
            r is Some ==> r->0 == computation.output(),
            computation is Ready || computation is Signal ==> r == Some(computation.output()),
    {
        let handle = self.spawn(computation);
        self.run();
        let ghost ts_run = self.scheduler.tasks@;
        let ghost q_run = self.scheduler.queue@;
        let ghost rs_run = self.reactor.resources@;
        let r = handle.try_join(&mut self.scheduler);
        proof {
            let id = handle.task.id as int;
            if ts_run[id].state is Complete {
                let ts2 = self.scheduler.tasks@;
                assert forall|k: int, d: bool| #[trigger] waiter_at(rs_run, k, d)
                    is Some implies waiter_at(rs_run, k, d)->0.id < ts2.len() && ts2[waiter_at(
                    rs_run,
                    k,
                    d,
                )->0.id as int].state is InProgress && !q_run.contains(waiter_at(rs_run, k, d)->0) by {
                    assert(waiter_at(rs_run, k, d)->0.id != id);
                }
                assert(self.wf());
            }
        }
        r
    }
}

/// What delivering a batch of OS readiness events does: each event in
/// order is routed to the resource its token names and reported through
/// `add_readiness`; an event whose token no longer names a live resource
/// is skipped.
pub open spec fn dispatch_spec(
    rs: Seq<Option<Resource>>,
    q: Seq<Task>,
    events: Seq<Event>,
) -> (Seq<Option<Resource>>, Seq<Task>)
    decreases events.len(),
{
    if events.len() == 0 {
        (rs, q)
    } else {
        let e = events[0];
        if token_live(rs, e.token) {
            let effect = add_readiness_spec(rs[e.token as int]->0, q, e.ready);
            dispatch_spec(rs.update(e.token as int, Some(effect.0)), effect.1, events.remove(0))
        } else {
            dispatch_spec(rs, q, events.remove(0))
        }
    }
}

impl Runtime {
    /// Deliver one batch of readiness events from the OS polling
    /// primitive, already mapped to plain token/readiness pairs. This is
    /// the reactor's dispatch half of parking: the blocking wait itself
    /// happens outside the verified core, and hands the events it
    /// collected to this function.
    pub fn dispatch_events(&mut self, events: &Vec<Event>)
        requires
            old(self).wf(),
            old(self).scheduler.queue@.len() + 2 * events@.len() + 2 <= usize::MAX,
        ensures
            final(self).wf(),
            final(self).scheduler.tasks == old(self).scheduler.tasks,
            final(self).scheduler.current == old(self).scheduler.current,
            (final(self).reactor.resources@, final(self).scheduler.queue@) == dispatch_spec(
                old(self).reactor.resources@,
                old(self).scheduler.queue@,
                events@,
            ),
    {
        let ghost rs0 = self.reactor.resources@;
        let ghost q0 = self.scheduler.queue@;
        let n = events.len();
        let mut i: usize = 0;
        proof {
            assert(events@.skip(0) =~= events@);
        }
        while i < n
            invariant
                i <= n,
                n == events@.len(),
                executor_wf(self.scheduler.tasks@, self.scheduler.queue@, self.reactor.resources@),
                self.scheduler.tasks == old(self).scheduler.tasks,
                self.scheduler.current == old(self).scheduler.current,
                self.scheduler.queue@.len() <= q0.len() + 2 * i,
                q0.len() + 2 * n + 2 <= usize::MAX,
                dispatch_spec(rs0, q0, events@) == dispatch_spec(
                    self.reactor.resources@,
                    self.scheduler.queue@,
                    events@.skip(i as int),
                ),
            decreases n - i,
        {
            let ghost rs_pre = self.reactor.resources@;
            let ghost q_pre = self.scheduler.queue@;
            let event = events[i];
            if event.token < self.reactor.resources.len() {
                if self.reactor.resources[event.token].is_some() {
                    let mut res = self.reactor.resources[event.token].unwrap();
                    res.add_readiness(&mut self.scheduler, event.ready);
                    self.reactor.resources.set(event.token, Some(res));
                    proof {
                        lemma_add_readiness_wf(
                            self.scheduler.tasks@,
                            q_pre,
                            rs_pre,
                            event.token,
                            event.ready,
                        );
                    }
                }
            }
            proof {
                assert(events@.skip(i as int)[0] == event);
                assert(events@.skip(i as int).remove(0) =~= events@.skip(i + 1));
            }
            i = i + 1;
        }
        proof {
            assert(events@.skip(n as int) =~= Seq::<Event>::empty());
        }
    }
}
} // verus!
