use minirt::interest::Interest;
use minirt::reactor::Event;
use minirt::ready::Ready;
use minirt::runtime::Runtime;
use minirt::task::Computation;

// A readable event while a read-waiter is parked reschedules that waiter
// exactly once; a second event before the waiter clears readiness wakes
// nobody.
#[test]
fn event_wakes_parked_waiter_exactly_once() {
    let mut rt = Runtime::new();
    let registration = rt.reactor.register(Interest::readable());
    let token = registration.token;
    let handle = rt.spawn(Computation::WaitReadable { token, value: 8 });
    rt.run();

    // parked: queue drained, waiter slot filled
    assert_eq!(rt.scheduler.queue.len(), 0);
    let resource = rt.reactor.resources[token].unwrap();
    assert_eq!(resource.read_task, Some(handle.task));

    // first event: exactly one reschedule, slot cleared
    rt.dispatch_events(&vec![Event { token, ready: Ready::readable_only() }]);
    assert_eq!(rt.scheduler.queue.len(), 1);
    assert_eq!(rt.scheduler.queue[0].id, handle.task.id);
    let resource = rt.reactor.resources[token].unwrap();
    assert_eq!(resource.read_task, None);
    assert!(resource.readiness.is_readable());

    // second event before the waiter runs: no duplicate reschedule
    rt.dispatch_events(&vec![Event { token, ready: Ready::readable_only() }]);
    assert_eq!(rt.scheduler.queue.len(), 1);

    rt.run();
    assert_eq!(handle.try_join(&mut rt.scheduler), Some(8));
}

// clear_readiness without an intervening reactor event leaves the
// interest unset, and a wait on it afterwards stays pending.
#[test]
fn clear_readiness_prevents_spurious_wakeup() {
    let mut rt = Runtime::new();
    let registration = rt.reactor.register(Interest::readable());
    let token = registration.token;

    rt.dispatch_events(&vec![Event { token, ready: Ready::readable_only() }]);
    assert!(rt.reactor.resources[token].unwrap().readiness.is_readable());

    registration.clear_readiness(&mut rt.reactor, Ready::readable_only());
    assert!(!rt.reactor.resources[token].unwrap().readiness.is_readable());

    // a wait on the cleared interest must remain pending
    let handle = rt.spawn(Computation::WaitReadable { token, value: 4 });
    rt.run();
    assert_eq!(handle.try_join(&mut rt.scheduler), None);
    let resource = rt.reactor.resources[token].unwrap();
    assert_eq!(resource.read_task, Some(handle.task));
}

// Readiness only grows by events and only shrinks by the explicit clear;
// clearing one flag leaves the others.
#[test]
fn clear_readiness_is_flag_exact() {
    let mut rt = Runtime::new();
    let registration = rt.reactor.register(Interest::readable().add(Interest::writable()));
    let token = registration.token;
    let both = Ready::readable_only().union(Ready::writable_only());
    rt.dispatch_events(&vec![Event { token, ready: both }]);

    registration.clear_readiness(&mut rt.reactor, Ready::readable_only());
    let readiness = rt.reactor.resources[token].unwrap().readiness;
    assert!(!readiness.readable);
    assert!(readiness.writable);
}

// An event for a token with no live resource is skipped, not an error.
#[test]
fn unknown_token_event_is_skipped() {
    let mut rt = Runtime::new();
    rt.dispatch_events(&vec![Event { token: 17, ready: Ready::readable_only() }]);
    assert_eq!(rt.scheduler.queue.len(), 0);
    assert_eq!(rt.reactor.resources.len(), 0);
}

// One batch can wake both directions of one resource: each waiter moves
// to the queue once, read waiter first.
#[test]
fn event_wakes_both_directions() {
    let mut rt = Runtime::new();
    let registration = rt.reactor.register(Interest::readable().add(Interest::writable()));
    let token = registration.token;
    let reader = rt.spawn(Computation::WaitReadable { token, value: 1 });
    rt.run();
    // park a write waiter by hand, as a write-direction consumer would
    rt.scheduler.set_current(reader.task);
    let outcome = registration.poll_write_ready(&rt.scheduler, &mut rt.reactor);
    assert!(matches!(outcome, minirt::reactor::WaitPoll::Pending));
    rt.scheduler.unset_current();

    let both = Ready::readable_only().union(Ready::writable_only());
    rt.dispatch_events(&vec![Event { token, ready: both }]);
    // the same task was parked in both slots; it is rescheduled once per slot
    assert_eq!(rt.scheduler.queue.len(), 2);
    let resource = rt.reactor.resources[token].unwrap();
    assert_eq!(resource.read_task, None);
    assert_eq!(resource.write_task, None);
}

// Registration hands out the least vacant slot, and a deregistered slot
// is reused.
#[test]
fn registry_reuses_freed_slots() {
    let mut rt = Runtime::new();
    let r0 = rt.reactor.register(Interest::readable());
    let r1 = rt.reactor.register(Interest::readable());
    let r2 = rt.reactor.register(Interest::readable());
    assert_eq!((r0.token, r1.token, r2.token), (0, 1, 2));

    rt.reactor.deregister(r1.token);
    assert!(rt.reactor.resources[1].is_none());

    let r3 = rt.reactor.register(Interest::writable());
    assert_eq!(r3.token, 1);
    assert!(rt.reactor.resources[1].is_some());
}

// An accept loop scenario: a listening resource is registered, an accept
// task parks on it, one client "connects" (one readable event), and
// exactly one accept readiness is observed and one stream task spawned.
#[test]
fn accept_once_spawns_one_stream_task() {
    let mut rt = Runtime::new();
    let registration = rt.reactor.register(Interest::readable());
    let token = registration.token;
    let acceptor = rt.spawn(Computation::AcceptOnce { token, value: 7 });
    rt.run();

    // parked, nothing accepted yet
    assert_eq!(rt.scheduler.tasks.len(), 1);
    assert_eq!(acceptor.try_join(&mut rt.scheduler), None);

    // one client connects: one readable event
    rt.dispatch_events(&vec![Event { token, ready: Ready::readable_only() }]);
    rt.run();

    // exactly one stream task was spawned, and the acceptor completed
    assert_eq!(rt.scheduler.tasks.len(), 2);
    assert_eq!(acceptor.try_join(&mut rt.scheduler), Some(7));
    // accept success does not consume readiness; only clear_readiness does
    assert!(rt.reactor.resources[token].unwrap().readiness.is_readable());
}

// A read-readiness wait on an already-readable resource returns the
// readiness immediately and parks nothing.
#[test]
fn poll_read_ready_on_ready_resource() {
    let mut rt = Runtime::new();
    let registration = rt.reactor.register(Interest::readable());
    let token = registration.token;
    rt.dispatch_events(&vec![Event { token, ready: Ready::readable_only() }]);
    let outcome = registration.poll_read_ready(&rt.scheduler, &mut rt.reactor);
    match outcome {
        minirt::reactor::WaitPoll::Ready(ready) => assert!(ready.readable),
        _ => panic!("expected readiness"),
    }
    assert_eq!(rt.reactor.resources[token].unwrap().read_task, None);
}

// Outside any poll there is no task to park: the wait reports that the
// wakeup cannot be delivered instead of losing it.
#[test]
fn poll_read_ready_without_current_task() {
    let mut rt = Runtime::new();
    let registration = rt.reactor.register(Interest::readable());
    let outcome = registration.poll_read_ready(&rt.scheduler, &mut rt.reactor);
    assert!(matches!(outcome, minirt::reactor::WaitPoll::NoWaiter));
}
