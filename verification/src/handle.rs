//! The live-handle protocol's verified pieces.
//!
//! A running order's handle is a triple: a latest-value status slot, a
//! stop flag, and a termination broadcast that carries no payload and
//! signals only by closing.  The channels themselves are plumbing; what
//! is modelled here is the stop flag's semantics — idempotent and sticky
//! — and the rate limit a status-streaming endpoint applies.

use vstd::prelude::*;

verus! {

/// Minimum milliseconds between status emissions to one subscriber.
pub const STATUS_UPDATE_INTERVAL_MILLIS: u64 = 200;

/// The stop flag of a live handle: once raised it stays raised, and
/// raising it again changes nothing.
pub struct StopFlag {
    raised: bool,
}

impl StopFlag {
    /// Whether the flag has been raised.
    pub closed spec fn raised_spec(&self) -> bool {
        self.raised
    }

    /// A fresh, unraised flag.
    pub fn new() -> (flag: StopFlag)
        ensures
            !flag.raised_spec(),
    {
        StopFlag { raised: false }
    }

    /// Raise the flag.  The result does not depend on the prior state:
    /// raising is idempotent and never clears.
    pub fn raise(&mut self)
        ensures
            final(self).raised_spec(),
    {
        self.raised = true;
    }

    /// Observe the flag, as the supervisor does each tick.
    pub fn is_raised(&self) -> (raised: bool)
        ensures
            raised == self.raised_spec(),
    {
        self.raised
    }
}

/// Raising the stop flag twice is the same as raising it once: the
/// flag's whole state is whether it has been raised, so any two raised
/// flags are equal.
pub proof fn lemma_stop_raise_idempotent(once: StopFlag, twice: StopFlag)
    requires
        once.raised_spec(),
        twice.raised_spec(),
    ensures
        once == twice,
{
}

/// Whether a status-streaming endpoint may emit again: more than the
/// update interval must have passed since its last emission.
pub fn should_emit(last_emitted_millis: u64, now_millis: u64) -> (emit: bool)
    ensures
        emit == (now_millis > last_emitted_millis + STATUS_UPDATE_INTERVAL_MILLIS),
{
    now_millis > last_emitted_millis && now_millis - last_emitted_millis
        > STATUS_UPDATE_INTERVAL_MILLIS
}

} // verus!
