use vstd::prelude::*;

use crate::ready::Ready;
use crate::interest::Interest;
use crate::scheduler::Scheduler;
use crate::task::Task;

verus! {

/// Reactor-side state for one registered I/O handle: its current readiness
/// and the task parked in each direction, if any. Each waiter slot holds at
/// most one task; parking a new waiter for the same direction replaces the
/// previous one (edge-triggered: a stored waiter fires at most once per
/// readiness transition, then the slot is cleared).
#[derive(Clone, Copy, Debug, PartialEq, Eq, Structural)]
pub struct Resource {
    /// Current readiness. It grows only through reactor-reported events and
    /// shrinks only through an explicit `clear_readiness`.
    pub readiness: Ready,
    /// Task to schedule when the resource becomes readable.
    pub read_task: Option<Task>,
    /// Task to schedule when the resource becomes writable.
    pub write_task: Option<Task>,
}

/// What `Resource::add_readiness` does to the resource and to the scheduler
/// queue: merge the event into the stored readiness and, for each direction
/// whose bits are newly set, take that direction's waiter (clearing the
/// slot) and append it to the queue.
pub open spec fn add_readiness_spec(res: Resource, queue: Seq<Task>, event: Ready) -> (
    Resource,
    Seq<Task>,
) {
    let newly = event.spec_difference(res.readiness);
    let queue_after_read = if newly.spec_is_readable() && res.read_task is Some {
        queue.push(res.read_task->0)
    } else {
        queue
    };
    let queue_after_write = if newly.spec_is_writable() && res.write_task is Some {
        queue_after_read.push(res.write_task->0)
    } else {
        queue_after_read
    };
    let res_after = Resource {
        readiness: res.readiness.spec_union(event),
        read_task: if newly.spec_is_readable() {
            None
        } else {
            res.read_task
        },
        write_task: if newly.spec_is_writable() {
            None
        } else {
            res.write_task
        },
    };
    (res_after, queue_after_write)
}

impl Resource {
    /// A freshly registered resource: no readiness, no waiters.
    pub fn new() -> (r: Resource)
        ensures
            r == (Resource {
                readiness: Ready { readable: false, writable: false, read_closed: false, write_closed: false },
                read_task: None::<Task>,
                write_task: None::<Task>,
            }),
    {
        Resource { readiness: Ready::empty(), read_task: None, write_task: None }
    }

    /// Report a readiness event to this resource. This is the sole wakeup
    /// path from OS events to scheduler re-entry: bits newly set relative
    /// to the stored readiness are merged in, and for each direction that
    /// newly became ready the parked waiter (if any) is taken out of its
    /// slot and rescheduled, exactly once.
    pub fn add_readiness(&mut self, scheduler: &mut Scheduler, event: Ready)
        requires
            old(scheduler).queue.len() + 2 <= usize::MAX,
        ensures
            (*final(self), final(scheduler).queue@) == add_readiness_spec(
                *old(self),
                old(scheduler).queue@,
                event,
            ),
            final(scheduler).tasks == old(scheduler).tasks,
            final(scheduler).current == old(scheduler).current,
    {
        let newly = event.difference(self.readiness);
        self.readiness = self.readiness.union(event);

        if newly.is_readable() {
            let maybe_task = self.read_task.take();
            if let Some(waiter) = maybe_task {
                scheduler.schedule(waiter);
            }
        }

        if newly.is_writable() {
            let maybe_task = self.write_task.take();
            if let Some(waiter) = maybe_task {
                scheduler.schedule(waiter);
            }
        }
    }
}

/// One readiness event reported by the OS polling primitive, already mapped
/// to plain values: the token of the registered resource it concerns and
/// the readiness it reports.
#[derive(Clone, Copy, Debug, PartialEq, Eq, Structural)]
pub struct Event {
    pub token: usize,
    pub ready: Ready,
}

/// The reactor's resource registry: a stable slot map from small integer
/// tokens to resources. A token stays valid until its resource is
/// deregistered; a freed slot may be reused by a later registration.
pub struct Reactor {
    pub resources: Vec<Option<Resource>>,
}

impl Reactor {
    pub open spec fn valid_token(self, token: usize) -> bool {
        token < self.resources@.len() && self.resources@[token as int] is Some
    }

    pub open spec fn resource_at(self, token: usize) -> Resource
        recommends
            self.valid_token(token),
    {
        self.resources@[token as int]->0
    }

    pub fn new() -> (r: Reactor)
        ensures
            r.resources@ == Seq::<Option<Resource>>::empty(),
    {
        Reactor { resources: Vec::new() }
    }

    /// Track a new I/O handle for the given interest set and hand back the
    /// registration that names its slot. The registry tracks slots only;
    /// registering the handle with the OS polling primitive, under this
    /// token and this interest, is the driver's part and happens outside
    /// the verified core.
    pub fn register(&mut self, interest: Interest) -> (registration: Registration)
        requires
            old(self).resources.len() < usize::MAX,
        ensures
            final(self).valid_token(registration.token),
            final(self).resource_at(registration.token) == (Resource {
                readiness: Ready { readable: false, writable: false, read_closed: false, write_closed: false },
                read_task: None::<Task>,
                write_task: None::<Task>,
            }),
            // the token named a free slot: either the least vacant one, or a fresh one
            registration.token <= old(self).resources.len(),
            forall|j: int| 0 <= j < registration.token ==> old(self).resources@[j] is Some,
            registration.token < old(self).resources.len() ==> old(self).resources@[
                registration.token as int
            ] is None && final(self).resources@ == old(self).resources@.update(
                registration.token as int,
                Some(final(self).resource_at(registration.token)),
            ),
            registration.token == old(self).resources.len() ==> final(self).resources@ == old(
                self,
            ).resources@.push(Some(final(self).resource_at(registration.token))),
    {
        let _ = interest;
        let mut token: usize = 0;
        let n = self.resources.len();
        while token < n
            invariant
                token <= n,
                n == self.resources.len(),
                forall|j: int| 0 <= j < token ==> self.resources@[j] is Some,
            ensures
                token <= n,
                n == self.resources.len(),
                forall|j: int| 0 <= j < token ==> self.resources@[j] is Some,
                token < n ==> self.resources@[token as int] is None,
            decreases n - token,
        {
            if self.resources[token].is_none() {
                break;
            }
            token = token + 1;
        }
        if token < self.resources.len() {
            self.resources.set(token, Some(Resource::new()));
        } else {
            self.resources.push(Some(Resource::new()));
        }
        Registration { token }
    }

    /// Free the slot of a closed I/O handle. The matching OS-level
    /// deregistration is the driver's part. Any task still parked on the
    /// resource is dropped with it and will not be woken.
    pub fn deregister(&mut self, token: usize)
        requires
            old(self).valid_token(token),
        ensures
            final(self).resources@ == old(self).resources@.update(token as int, None::<Resource>),
    {
        self.resources.set(token, None);
    }
}

/// What a readiness wait observed.
#[derive(Clone, Copy, Debug, PartialEq, Eq, Structural)]
pub enum WaitPoll {
    /// The resource is ready; the readiness seen at that moment.
    Ready(Ready),
    /// Not ready; the waiting task has been parked on the waiter slot and
    /// will be rescheduled on the next readiness transition.
    Pending,
    /// Not ready, and no task's poll is in progress, so there is nobody to
    /// park: the wakeup cannot be delivered and the caller must treat the
    /// I/O operation as failed rather than lose it silently.
    NoWaiter,
}

/// Consumer-facing bridge to one registered resource: it names the
/// resource's slot in the reactor's registry.
#[derive(Clone, Copy, Debug, PartialEq, Eq, Structural)]
pub struct Registration {
    pub token: usize,
}

impl Registration {
    /// Wait for the resource to become readable. If it already is, the
    /// current readiness is returned; otherwise the task whose poll is in
    /// progress is parked in the read-waiter slot, replacing any previous
    /// waiter for that direction.
    pub fn poll_read_ready(&self, scheduler: &Scheduler, reactor: &mut Reactor) -> (r: WaitPoll)
        requires
            old(reactor).valid_token(self.token),
        ensures
            final(reactor).resources@.len() == old(reactor).resources@.len(),
            ({
                let res = old(reactor).resource_at(self.token);
                if res.readiness.spec_is_readable() {
                    r == WaitPoll::Ready(res.readiness) && *final(reactor) == *old(reactor)
                } else if scheduler.current is Some {
                    r == WaitPoll::Pending && final(reactor).resources@ == old(
                        reactor,
                    ).resources@.update(
                        self.token as int,
                        Some(Resource { read_task: scheduler.current, ..res }),
                    )
                } else {
                    r == WaitPoll::NoWaiter && *final(reactor) == *old(reactor)
                }
            }),
    {
        let res = reactor.resources[self.token].unwrap();
        if res.readiness.is_readable() {
            WaitPoll::Ready(res.readiness)
        } else {
            match scheduler.current {
                Some(waiter) => {
                    reactor.resources.set(
                        self.token,
                        Some(Resource { read_task: Some(waiter), ..res }),
                    );
                    WaitPoll::Pending
                }
                None => WaitPoll::NoWaiter,
            }
        }
    }

    /// Wait for the resource to become writable; the mirror image of
    /// `poll_read_ready`, parking in the write-waiter slot.
    pub fn poll_write_ready(&self, scheduler: &Scheduler, reactor: &mut Reactor) -> (r: WaitPoll)
        requires
            old(reactor).valid_token(self.token),
        ensures
            final(reactor).resources@.len() == old(reactor).resources@.len(),
            ({
                let res = old(reactor).resource_at(self.token);
                if res.readiness.spec_is_writable() {
                    r == WaitPoll::Ready(res.readiness) && *final(reactor) == *old(reactor)
                } else if scheduler.current is Some {
                    r == WaitPoll::Pending && final(reactor).resources@ == old(
                        reactor,
                    ).resources@.update(
                        self.token as int,
                        Some(Resource { write_task: scheduler.current, ..res }),
                    )
                } else {
                    r == WaitPoll::NoWaiter && *final(reactor) == *old(reactor)
                }
            }),
    {
        let res = reactor.resources[self.token].unwrap();
        if res.readiness.is_writable() {
            WaitPoll::Ready(res.readiness)
        } else {
            match scheduler.current {
                Some(waiter) => {
                    reactor.resources.set(
                        self.token,
                        Some(Resource { write_task: Some(waiter), ..res }),
                    );
                    WaitPoll::Pending
                }
                None => WaitPoll::NoWaiter,
            }
        }
    }

    /// Drop the given readiness flags from the resource, immediately after
    /// the consumer observed that an attempted operation would still block.
    /// Readiness never shrinks any other way, and the waiter slots are
    /// untouched.
    pub fn clear_readiness(&self, reactor: &mut Reactor, cleared: Ready)
        requires
            old(reactor).valid_token(self.token),
        ensures
            final(reactor).resources@ == old(reactor).resources@.update(
                self.token as int,
                Some(Resource {
                    readiness: old(reactor).resource_at(self.token).readiness.spec_difference(
                        cleared,
                    ),
                    ..old(reactor).resource_at(self.token)
                }),
            ),
    {
        let res = reactor.resources[self.token].unwrap();
        reactor.resources.set(
            self.token,
            Some(Resource { readiness: res.readiness.difference(cleared), ..res }),
        );
    }
}

/// A readable event delivered while a read-waiter is parked reschedules
/// that waiter exactly once: the event moves the waiter out of its slot
/// and appends it to the queue, and any further event arriving before the
/// consumer clears readiness wakes nobody at this resource and leaves the
/// queue exactly as it was.
pub proof fn lemma_single_reschedule(
    res: Resource,
    queue: Seq<Task>,
    waiter: Task,
    first: Ready,
    second: Ready,
)
    requires
        res.read_task == Some(waiter),
        res.write_task is None,
        !res.readiness.spec_is_readable(),
        first.spec_is_readable(),
    ensures
        add_readiness_spec(res, queue, first).1 == queue.push(waiter),
        add_readiness_spec(res, queue, first).0.read_task is None,
        ({
            let woken = add_readiness_spec(res, queue, first);
            add_readiness_spec(woken.0, woken.1, second).1 == woken.1
        }),
{
}

/// Clearing readiness without an intervening reactor event leaves the
/// corresponding interest unset, so a wait on that interest afterwards
/// parks again instead of waking spuriously: by `poll_read_ready`'s and
/// `poll_write_ready`'s contracts, a wait returns readiness only while
/// `spec_is_readable` (or `spec_is_writable`) holds of the resource. The
/// closed flags are the exception by design: a closed half stays ready,
/// and clearing the plain flag cannot unset it.
pub proof fn lemma_clear_leaves_interest_unset(res: Resource, cleared: Ready)
    ensures
        !res.readiness.read_closed && cleared.readable
            ==> !res.readiness.spec_difference(cleared).spec_is_readable(),
        !res.readiness.write_closed && cleared.writable
            ==> !res.readiness.spec_difference(cleared).spec_is_writable(),
{
}
} // verus!
