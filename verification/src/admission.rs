//! Admission control: a counting gate that bounds how many connections are
//! active at once. A connection takes one slot before its transport upgrade
//! and frees the slot when it ends; a shut gate lets no further connection
//! in, which tells the accept loop to stop.

use vstd::prelude::*;

verus! {

/// A counting gate over a fixed number of connection slots.
pub struct AdmissionGate {
    available: u32,
    capacity: u32,
    closed: bool,
}

impl AdmissionGate {
    /// The free slots never exceed the capacity.
    pub closed spec fn wf(&self) -> bool {
        self.available <= self.capacity
    }

    pub closed spec fn spec_available(&self) -> u32 {
        self.available
    }

    pub closed spec fn spec_capacity(&self) -> u32 {
        self.capacity
    }

    pub closed spec fn spec_closed(&self) -> bool {
        self.closed
    }

    /// A gate with `max` free slots.
    pub fn new(max: u32) -> (g: AdmissionGate)
        ensures
            g.wf(),
            g.spec_available() == max,
            g.spec_capacity() == max,
            !g.spec_closed(),
    {
        AdmissionGate { available: max, capacity: max, closed: false }
    }

    /// How many slots are free right now.
    pub fn available(&self) -> (r: u32)
        ensures
            r == self.spec_available(),
    {
        self.available
    }

    /// Takes one slot if admission is open and a slot is free. Each taken
    /// slot is freed again with `release` when the connection ends.
    pub fn try_acquire(&mut self) -> (granted: bool)
        requires
            old(self).wf(),
        ensures
            final(self).wf(),
            final(self).spec_capacity() == old(self).spec_capacity(),
            final(self).spec_closed() == old(self).spec_closed(),
            granted <==> (!old(self).spec_closed() && old(self).spec_available() > 0),
            granted ==> final(self).spec_available() == old(self).spec_available() - 1,
            !granted ==> final(self).spec_available() == old(self).spec_available(),
    {
        if !self.closed && self.available > 0 {
            self.available = self.available - 1;
            true
        } else {
            false
        }
    }

    /// Returns one slot to the pool; called exactly once per granted slot,
    /// on every exit path of a connection.
    pub fn release(&mut self)
        requires
            old(self).wf(),
            old(self).spec_available() < old(self).spec_capacity(),
        ensures
            final(self).wf(),
            final(self).spec_capacity() == old(self).spec_capacity(),
            final(self).spec_closed() == old(self).spec_closed(),
            final(self).spec_available() == old(self).spec_available() + 1,
    {
        self.available = self.available + 1;
    }

    /// Shuts admission for the rest of the run: nothing further is let in.
    pub fn close(&mut self)
        requires
            old(self).wf(),
        ensures
            final(self).wf(),
            final(self).spec_capacity() == old(self).spec_capacity(),
            final(self).spec_available() == old(self).spec_available(),
            final(self).spec_closed(),
    {
        self.closed = true;
    }
}

/// Law: with a single slot, a second acquire cannot be granted while the
/// first slot is still held; only a release frees it again.
pub proof fn lemma_single_slot_excludes(g: AdmissionGate)
    requires
        g.wf(),
        g.spec_capacity() == 1,
        g.spec_available() == 0,
    ensures
        !(!g.spec_closed() && g.spec_available() > 0),
{
}

} // verus!
