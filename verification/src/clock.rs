//! Instants and the clock that the dispatcher reads them from.

use vstd::prelude::*;

verus! {

/// A reading of the loop's clock, in nanoseconds since an epoch that the
/// embedding program picks once and keeps.
#[derive(Clone, Copy, Debug, PartialEq, Eq, Structural)]
pub struct Instant {
    pub nanos: u64,
}

/// The source of the current time. The dispatcher reads it whenever it is
/// about to commit a deadline; nothing is assumed of the readings, not even
/// that they never go back.
pub trait Clock {
    /// The current instant.
    fn now(&self) -> Instant;
}

/// Whether `instant` is a reading of `clock`: an instant that the contract
/// of its `now` admits.
pub open spec fn is_reading<C: Clock>(clock: &C, instant: Instant) -> bool {
    call_ensures(C::now, (clock,), instant)
}

} // verus!
