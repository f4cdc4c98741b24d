//! The monotonic clock.
//!
//! A clock keeps a ghost record of what it was asked and what it answered, so that
//! contracts can speak of its readings without foretelling them.
use std::time::Instant;
use vstd::prelude::*;

verus! {

/// The monotonic clock reading of the standard library.
#[verifier::external_type_specification]
#[verifier::external_body]
pub struct ExInstant(std::time::Instant);

/// Calls `std::time::Instant::now`. Nothing is claimed of the reading.
#[verifier::external_body]
fn clock_now() -> (now: Instant)
{
    Instant::now()
}

/// Calls `std::time::Instant::elapsed` and gives the result in nanoseconds.
/// Nothing is claimed of the reading.
#[verifier::external_body]
fn nanos_since(then: &Instant) -> (ns: u128)
{
    then.elapsed().as_nanos()
}

/// A question to the clock, with its answer.
pub enum ClockCall {
    /// What time it is.
    Now(Instant),
    /// How many nanoseconds have passed since an earlier reading.
    Elapsed { since: Instant, ns: u128 },
}

/// The reading at `i`, where the clock was asked for the time.
pub open spec fn reading(calls: Seq<ClockCall>, i: int) -> Instant {
    match calls[i] {
        ClockCall::Now(now) => now,
        ClockCall::Elapsed { since, .. } => since,
    }
}

/// The answer at `i`, where the clock was asked how much time has passed.
pub open spec fn nanos(calls: Seq<ClockCall>, i: int) -> u128 {
    match calls[i] {
        ClockCall::Now(_) => 0,
        ClockCall::Elapsed { ns, .. } => ns,
    }
}

/// The system's monotonic clock.
pub struct Clock {
    log: Ghost<Seq<ClockCall>>,
}

impl Clock {
    /// What the clock was asked so far, oldest first.
    pub closed spec fn calls(&self) -> Seq<ClockCall> {
        self.log@
    }

    /// A clock that was asked nothing yet.
    pub fn new() -> (c: Clock)
        ensures
            c.calls() == Seq::<ClockCall>::empty(),
    {
        Clock { log: Ghost(Seq::empty()) }
    }

    /// What time it is.
    pub fn now(&mut self) -> (now: Instant)
        ensures
            final(self).calls() == old(self).calls().push(ClockCall::Now(now)),
    {
        let now = clock_now();
        self.log = Ghost(self.log@.push(ClockCall::Now(now)));
        now
    }

    /// How many nanoseconds have passed since `since`.
    pub fn elapsed(&mut self, since: &Instant) -> (ns: u128)
        ensures
            final(self).calls() == old(self).calls().push(
                ClockCall::Elapsed { since: *since, ns },
            ),
    {
        let ns: u128 = nanos_since(since);
        self.log = Ghost(self.log@.push(ClockCall::Elapsed { since: *since, ns }));
        ns
    }
}

} // verus!
