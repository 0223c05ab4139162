use minirt::interest::Interest;
use minirt::ready::Ready;
use minirt::runtime::Runtime;
use minirt::task::Computation;

// Spawning zero computations and running the runtime terminates with an
// empty queue.
#[test]
fn run_with_no_tasks_terminates() {
    let mut rt = Runtime::new();
    rt.run();
    assert_eq!(rt.scheduler.queue.len(), 0);
    assert_eq!(rt.scheduler.tasks.len(), 0);
}

// A task that immediately returns 42 resolves its join handle to 42 and
// leaves the runtime with an empty queue.
#[test]
fn block_on_immediately_ready_yields_42() {
    let mut rt = Runtime::new();
    let r = rt.block_on(Computation::Ready(42));
    assert_eq!(r, Some(42));
    assert_eq!(rt.scheduler.queue.len(), 0);
}

// N immediately-ready computations: running the runtime terminates and
// each join handle yields its true output exactly once.
#[test]
fn many_ready_tasks_each_yield_once() {
    let mut rt = Runtime::new();
    let mut handles = Vec::new();
    for i in 0..5u64 {
        handles.push(rt.spawn(Computation::Ready(100 + i)));
    }
    rt.run();
    assert_eq!(rt.scheduler.queue.len(), 0);
    for (i, h) in handles.iter().enumerate() {
        assert_eq!(h.try_join(&mut rt.scheduler), Some(100 + i as u64));
    }
    for h in handles.iter() {
        assert_eq!(h.try_join(&mut rt.scheduler), None);
    }
}

// The ambient-style free spawn: same task creation through the module
// entry point.
#[test]
fn free_spawn_runs_on_runtime() {
    let mut rt = Runtime::new();
    let h = minirt::spawn(&mut rt, Computation::Ready(9));
    rt.run();
    assert_eq!(h.try_join(&mut rt.scheduler), Some(9));
}

// Joining before the task has run yields nothing and consumes nothing.
#[test]
fn try_join_before_completion_is_none() {
    let mut rt = Runtime::new();
    let h = rt.spawn(Computation::Ready(5));
    assert_eq!(h.try_join(&mut rt.scheduler), None);
    rt.run();
    assert_eq!(h.try_join(&mut rt.scheduler), Some(5));
}

// Two tasks, A waking B through a shared readiness source: B parks first,
// A signals, and B is polled again after A, in FIFO order.
#[test]
fn wake_chain_is_fifo() {
    let mut rt = Runtime::new();
    let registration = rt.reactor.register(Interest::readable());
    let token = registration.token;

    let handle_b = rt.spawn(Computation::WaitReadable { token, value: 2 });
    let handle_a = rt.spawn(Computation::Signal {
        token,
        bits: Ready::readable_only(),
        value: 1,
    });

    // first poll: B, which parks on the resource
    let first = rt.scheduler.next_scheduled_task().unwrap();
    assert_eq!(first.id, handle_b.task.id);
    rt.scheduler.run_task(&mut rt.reactor, first);
    assert_eq!(handle_b.try_join(&mut rt.scheduler), None);

    // second poll: A, which signals readiness (waking B) and completes
    let second = rt.scheduler.next_scheduled_task().unwrap();
    assert_eq!(second.id, handle_a.task.id);
    rt.scheduler.run_task(&mut rt.reactor, second);
    assert_eq!(handle_a.try_join(&mut rt.scheduler), Some(1));

    // third poll: B again, strictly after A, now completing
    let third = rt.scheduler.next_scheduled_task().unwrap();
    assert_eq!(third.id, handle_b.task.id);
    rt.scheduler.run_task(&mut rt.reactor, third);
    assert_eq!(handle_b.try_join(&mut rt.scheduler), Some(2));

    assert!(rt.scheduler.next_scheduled_task().is_none());
}

// The same wake chain through the plain run loop: both tasks complete in
// one drain, since the signal re-queues the waiter mid-drain.
#[test]
fn wake_chain_completes_in_one_run() {
    let mut rt = Runtime::new();
    let registration = rt.reactor.register(Interest::readable());
    let token = registration.token;
    let handle_b = rt.spawn(Computation::WaitReadable { token, value: 20 });
    let handle_a = rt.spawn(Computation::Signal {
        token,
        bits: Ready::readable_only(),
        value: 10,
    });
    rt.run();
    assert_eq!(handle_a.try_join(&mut rt.scheduler), Some(10));
    assert_eq!(handle_b.try_join(&mut rt.scheduler), Some(20));
}

// A readiness wait with no event stays pending: block_on cannot resolve it.
#[test]
fn block_on_parked_wait_is_none() {
    let mut rt = Runtime::new();
    let registration = rt.reactor.register(Interest::readable());
    let r = rt.block_on(Computation::WaitReadable {
        token: registration.token,
        value: 3,
    });
    assert_eq!(r, None);
}

// The scheduler resolves a waker to a task only while that task's poll is
// in progress.
#[test]
fn waker_resolution_matches_current_only() {
    let mut rt = Runtime::new();
    let h = rt.spawn(Computation::Ready(1));
    let task = h.task;
    assert_eq!(rt.scheduler.waker_to_task(task), None);
    rt.scheduler.set_current(task);
    assert_eq!(rt.scheduler.waker_to_task(task), Some(task));
    let stranger = minirt::task::Task { id: task.id + 1 };
    assert_eq!(rt.scheduler.waker_to_task(stranger), None);
    rt.scheduler.unset_current();
    assert_eq!(rt.scheduler.waker_to_task(task), None);
}

// The ready queue is strict FIFO: tasks come out in the order they were
// scheduled.
#[test]
fn queue_is_fifo() {
    let mut rt = Runtime::new();
    let h1 = rt.spawn(Computation::Ready(1));
    let h2 = rt.spawn(Computation::Ready(2));
    let h3 = rt.spawn(Computation::Ready(3));
    assert_eq!(rt.scheduler.next_scheduled_task().unwrap().id, h1.task.id);
    assert_eq!(rt.scheduler.next_scheduled_task().unwrap().id, h2.task.id);
    assert_eq!(rt.scheduler.next_scheduled_task().unwrap().id, h3.task.id);
    assert!(rt.scheduler.next_scheduled_task().is_none());
}
