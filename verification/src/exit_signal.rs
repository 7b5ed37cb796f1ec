//! The exit signal: a flag that can be raised and never lowered.

use vstd::prelude::*;

verus! {

/// The request to end the loop. It starts lowered; once raised it stays
/// raised, and the loop ends at its next idle point.
#[derive(Debug)]
pub struct ExitSignal {
    requested: bool,
}

impl ExitSignal {
    /// Whether exit has been requested.
    pub closed spec fn requested(&self) -> bool {
        self.requested
    }

    /// The signal after one more request.
    pub closed spec fn raised(self) -> ExitSignal {
        ExitSignal { requested: true }
    }

    /// The signal after `count` more requests.
    pub open spec fn raised_times(self, count: nat) -> ExitSignal
        decreases count,
    {
        if count == 0 {
            self
        } else {
            self.raised_times((count - 1) as nat).raised()
        }
    }

    /// A signal that nobody has raised yet.
    pub fn new() -> (signal: ExitSignal)
        ensures
            !signal.requested(),
    {
        ExitSignal { requested: false }
    }

    /// Whether exit has been requested.
    pub fn is_exit_requested(&self) -> (requested: bool)
        ensures
            requested == self.requested(),
    {
        self.requested
    }

    /// A raised signal is requested, whatever it was before.
    pub proof fn lemma_raised_is_requested(self)
        ensures
            self.raised().requested(),
    {
    }

    /// Raising the signal any number of times, at least once, leaves it as
    /// one request leaves it; a signal that is already raised is left as it
    /// is.
    pub proof fn lemma_request_is_idempotent(self, count: nat)
        ensures
            count >= 1 ==> self.raised_times(count) == self.raised(),
            self.requested() ==> self.raised_times(count) == self,
        decreases count,
    {
        if count > 0 {
            self.lemma_request_is_idempotent((count - 1) as nat);
        }
    }
}

/// Requests exit. The signal is raised for good: there is no way to lower
/// it again.
pub fn request_exit(signal: &mut ExitSignal)
    ensures
        *final(signal) == old(signal).raised(),
        final(signal).requested(),
{
    signal.requested = true;
}

} // verus!
