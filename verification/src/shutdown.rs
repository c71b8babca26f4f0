//! The shutdown coordinator: a one-shot cancellation signal.
//!
//! The orchestrator fires it on an explicit quit action and when the event
//! source is exhausted; every concurrently running unit observes it and ends
//! its own loop.  Firing is idempotent and no unit re-fires it.

use vstd::prelude::*;

verus! {

/// The observable state of the one-shot cancellation signal.
#[derive(Clone, Copy, PartialEq, Eq, Structural, Debug)]
pub struct ShutdownSignal {
    pub fired: bool,
}

/// What firing does: the signal is set, whatever it was before.
pub open spec fn fire_spec(s: ShutdownSignal) -> ShutdownSignal {
    ShutdownSignal { fired: true }
}

impl ShutdownSignal {
    /// A signal that has not been fired.
    pub fn new() -> (s: ShutdownSignal)
        ensures
            !s.fired,
    {
        ShutdownSignal { fired: false }
    }

    /// Fire the signal.
    pub fn fire(&mut self)
        ensures
            *final(self) == fire_spec(*old(self)),
    {
        self.fired = true;
    }

    /// Whether the signal has been fired.
    pub fn is_fired(&self) -> (r: bool)
        ensures
            r == self.fired,
    {
        self.fired
    }
}

/// Firing the signal more than once has the same observable effect as firing
/// it once.
pub proof fn lemma_fire_idempotent(s: ShutdownSignal)
    ensures
        fire_spec(fire_spec(s)) == fire_spec(s),
{
}

} // verus!
