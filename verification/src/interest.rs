use vstd::prelude::*;

use crate::ready::Ready;

verus! {

/// The directions a consumer asks the reactor to watch on one I/O handle.
#[derive(Clone, Copy, Debug, PartialEq, Eq, Structural)]
pub struct Interest {
    pub read: bool,
    pub write: bool,
}

impl Interest {
    /// Interest in all readable events, including read-closed ones.
    pub fn readable() -> (i: Interest)
        ensures
            i == (Interest { read: true, write: false }),
    {
        Interest { read: true, write: false }
    }

    /// Interest in all writable events, including write-closed ones.
    pub fn writable() -> (i: Interest)
        ensures
            i == (Interest { read: false, write: true }),
    {
        Interest { read: false, write: true }
    }

    /// Returns true if the value includes readable interest.
    pub fn is_readable(self) -> (b: bool)
        ensures
            b == self.read,
    {
        self.read
    }

    /// Returns true if the value includes writable interest.
    pub fn is_writable(self) -> (b: bool)
        ensures
            b == self.write,
    {
        self.write
    }

    /// Add together two `Interest` values.
    pub fn add(self, other: Interest) -> (i: Interest)
        ensures
            i == (Interest { read: self.read || other.read, write: self.write || other.write }),
    {
        Interest { read: self.read || other.read, write: self.write || other.write }
    }

    pub open spec fn spec_mask(self) -> Ready {
        Ready {
            readable: self.read,
            writable: self.write,
            read_closed: self.read,
            write_closed: self.write,
        }
    }

    /// The readiness flags that satisfy this interest: an interest in a
    /// direction is satisfied both by that direction and by its closed variant.
    pub fn mask(self) -> (r: Ready)
        ensures
            r == self.spec_mask(),
    {
        Ready {
            readable: self.read,
            writable: self.write,
            read_closed: self.read,
            write_closed: self.write,
        }
    }
}

} // verus!
