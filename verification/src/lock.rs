//! The mutation boundary of the bus: a lock that cannot be entered twice.

use crate::queue::QueueError;
use vstd::prelude::*;

verus! {

/// The lock around every operation on a bus. It is not reentrant and it
/// never waits: an attempt to enter while an operation is under way, as a
/// subscriber's callback makes when it publishes on the bus that is just
/// delivering to it, fails at once.
pub struct BusLock {
    held: bool,
}

impl View for BusLock {
    type V = bool;

    /// Whether an operation is under way.
    closed spec fn view(&self) -> bool {
        self.held
    }
}

impl BusLock {
    /// A lock that nobody holds.
    pub fn new() -> (lock: Self)
        ensures
            !lock@,
    {
        BusLock { held: false }
    }

    /// Whether an operation is under way.
    pub fn is_held(&self) -> (held: bool)
        ensures
            held == self@,
    {
        self.held
    }

    /// Enter, if no operation is under way. A lock that is held stays
    /// held, by the one who holds it.
    pub fn try_acquire(&mut self) -> (out: Result<(), QueueError>)
        ensures
            final(self)@,
            match out {
                Ok(_) => !old(self)@,
                Err(e) => old(self)@ && e == QueueError::RecursiveAccess,
            },
    {
        if self.held {
            Err(QueueError::RecursiveAccess)
        } else {
            self.held = true;
            Ok(())
        }
    }

    /// Leave. The next attempt to enter succeeds.
    pub fn release(&mut self)
        ensures
            !final(self)@,
    {
        self.held = false;
    }
}

impl Default for BusLock {
    /// A lock that nobody holds.
    fn default() -> (lock: Self)
        ensures
            !lock@,
    {
        BusLock::new()
    }
}

} // verus!
