//! The cooperative shutdown protocol: a broadcast-once signal fans
//! cancellation out to every task, and a drain barrier completes only once
//! every subscribed handle has been released.
//!
//! This module is the protocol's state: who has been told to stop and how
//! many handles are still held.  The suspension itself — tasks parked on
//! the broadcast, the coordinator parked on the drain — is the runtime's
//! work and lives with the task wiring, which drives exactly these
//! transitions.

use vstd::prelude::*;

verus! {

/// The coordinator: one per process.
pub struct Sender {
    /// Whether the one shutdown signal has been broadcast.
    pub signaled: bool,
    /// Handles subscribed and not yet released; the drain barrier holds
    /// until this reaches zero.
    pub outstanding: usize,
}

/// One task's handle on the coordinator.
pub struct Receiver {
    /// True once the holding task has seen the shutdown signal.
    pub shutdown: bool,
}

impl Sender {
    pub fn new() -> (s: Sender)
        ensures
            !s.signaled,
            s.outstanding == 0,
    {
        Sender { signaled: false, outstanding: 0 }
    }

    /// Hands out one more handle; cheap, any number of times.
    pub fn subscribe(&mut self) -> (r: Receiver)
        requires
            old(self).outstanding < usize::MAX,
        ensures
            final(self).outstanding == old(self).outstanding + 1,
            final(self).signaled == old(self).signaled,
            !r.shutdown,
    {
        self.outstanding = self.outstanding + 1;
        Receiver { shutdown: false }
    }

    /// Broadcasts the shutdown signal; every outstanding handle will
    /// observe it exactly once.
    pub fn send(&mut self)
        ensures
            final(self).signaled,
            final(self).outstanding == old(self).outstanding,
    {
        self.signaled = true;
    }

    /// A task releases its handle after finishing its own teardown.
    /// Failing to release a handle leaves the barrier closed forever: that
    /// is each task's liveness obligation, not the coordinator's.
    pub fn release(&mut self)
        requires
            old(self).outstanding >= 1,
        ensures
            final(self).outstanding == old(self).outstanding - 1,
            final(self).signaled == old(self).signaled,
    {
        self.outstanding = self.outstanding - 1;
    }

    /// The drain barrier is open exactly when no handle is outstanding.
    pub fn drain_complete(&self) -> (r: bool)
        ensures
            r == (self.outstanding == 0),
    {
        self.outstanding == 0
    }
}

impl Default for Sender {
    fn default() -> (s: Sender)
        ensures
            !s.signaled,
            s.outstanding == 0,
    {
        Sender::new()
    }
}

impl Receiver {
    /// Whether the shutdown signal has been observed.
    pub fn is_shutdown(&self) -> (r: bool)
        ensures
            r == self.shutdown,
    {
        self.shutdown
    }

    /// Records that the suspension on the signal completed.  Once observed
    /// it stays observed: a repeated wait returns immediately.
    pub fn recv(&mut self)
        ensures
            final(self).shutdown,
            old(self).shutdown ==> *final(self) == *old(self),
    {
        self.shutdown = true;
    }
}

} // verus!
