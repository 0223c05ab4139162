use vstd::prelude::*;

verus! {

/// Readiness of one registered I/O resource: which operations are currently
/// possible on it. Mirrors the reactor's per-resource bitmask as four flags.
#[derive(Clone, Copy, Debug, PartialEq, Eq, Structural)]
pub struct Ready {
    pub readable: bool,
    pub writable: bool,
    pub read_closed: bool,
    pub write_closed: bool,
}

impl Ready {
    /// No readiness at all.
    pub fn empty() -> (r: Ready)
        ensures
            r == (Ready { readable: false, writable: false, read_closed: false, write_closed: false }),
    {
        Ready { readable: false, writable: false, read_closed: false, write_closed: false }
    }

    /// Readiness carrying only the readable flag.
    pub fn readable_only() -> (r: Ready)
        ensures
            r == (Ready { readable: true, writable: false, read_closed: false, write_closed: false }),
    {
        Ready { readable: true, writable: false, read_closed: false, write_closed: false }
    }

    /// Readiness carrying only the writable flag.
    pub fn writable_only() -> (r: Ready)
        ensures
            r == (Ready { readable: false, writable: true, read_closed: false, write_closed: false }),
    {
        Ready { readable: false, writable: true, read_closed: false, write_closed: false }
    }

    pub open spec fn spec_is_empty(self) -> bool {
        !self.readable && !self.writable && !self.read_closed && !self.write_closed
    }

    pub fn is_empty(&self) -> (b: bool)
        ensures
            b == self.spec_is_empty(),
    {
        !self.readable && !self.writable && !self.read_closed && !self.write_closed
    }

    /// A resource counts as readable when a read would make progress,
    /// which includes the read half having been closed.
    pub open spec fn spec_is_readable(self) -> bool {
        self.readable || self.read_closed
    }

    pub fn is_readable(&self) -> (b: bool)
        ensures
            b == self.spec_is_readable(),
    {
        self.readable || self.read_closed
    }

    /// A resource counts as writable when a write would make progress,
    /// which includes the write half having been closed.
    pub open spec fn spec_is_writable(self) -> bool {
        self.writable || self.write_closed
    }

    pub fn is_writable(&self) -> (b: bool)
        ensures
            b == self.spec_is_writable(),
    {
        self.writable || self.write_closed
    }

    /// True when the read half of the resource has been closed.
    pub fn is_read_closed(&self) -> (b: bool)
        ensures
            b == self.read_closed,
    {
        self.read_closed
    }

    /// True when the write half of the resource has been closed.
    pub fn is_write_closed(&self) -> (b: bool)
        ensures
            b == self.write_closed,
    {
        self.write_closed
    }

    pub open spec fn spec_union(self, other: Ready) -> Ready {
        Ready {
            readable: self.readable || other.readable,
            writable: self.writable || other.writable,
            read_closed: self.read_closed || other.read_closed,
            write_closed: self.write_closed || other.write_closed,
        }
    }

    /// Merge two readiness values; the reactor uses this when an event arrives.
    pub fn union(self, other: Ready) -> (r: Ready)
        ensures
            r == self.spec_union(other),
    {
        Ready {
            readable: self.readable || other.readable,
            writable: self.writable || other.writable,
            read_closed: self.read_closed || other.read_closed,
            write_closed: self.write_closed || other.write_closed,
        }
    }

    pub open spec fn spec_difference(self, other: Ready) -> Ready {
        Ready {
            readable: self.readable && !other.readable,
            writable: self.writable && !other.writable,
            read_closed: self.read_closed && !other.read_closed,
            write_closed: self.write_closed && !other.write_closed,
        }
    }

    /// The flags of `self` that `other` does not carry; `clear_readiness`
    /// and the newly-set computation in `add_readiness` are built on this.
    pub fn difference(self, other: Ready) -> (r: Ready)
        ensures
            r == self.spec_difference(other),
    {
        Ready {
            readable: self.readable && !other.readable,
            writable: self.writable && !other.writable,
            read_closed: self.read_closed && !other.read_closed,
            write_closed: self.write_closed && !other.write_closed,
        }
    }
}

} // verus!
