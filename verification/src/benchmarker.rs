//! A stopwatch that measures how long a proving or verifying step takes.
use std::time::Duration;
use std::time::Instant;
use vstd::prelude::*;

verus! {

/// `std::time::Instant`, a reading of the monotonic clock, carried through
/// the benchmarker without being inspected.
#[verifier::external_type_specification]
#[verifier::external_body]
pub struct ExInstant(Instant);

/// Reads the monotonic clock through `std::time::Instant::now`.
/// Nothing is stated of the reading: it depends on the time of the call.
#[verifier::external_body]
fn clock_now() -> (now: Instant) {
    Instant::now()
}

/// The time that has passed since `start`, through `std::time::Instant::elapsed`.
/// Nothing is stated of the duration: it depends on the time of the call.
#[verifier::external_body]
fn clock_elapsed(start: &Instant) -> (elapsed: Duration) {
    start.elapsed()
}

/// Measures the time between a call of `start_benchmark` and a call of
/// `end_benchmark`.
pub struct Benchmarker {
    start_time: Option<Instant>,
}

impl Benchmarker {
    /// The clock reading taken by the latest `start_benchmark`, if any.
    pub closed spec fn started_at(&self) -> Option<Instant> {
        self.start_time
    }

    /// Whether `start_benchmark` has been called on this benchmarker.
    pub open spec fn is_started(&self) -> bool {
        self.started_at() is Some
    }

    /// A benchmarker that has not been started.
    pub fn new() -> (b: Benchmarker)
        ensures
            !b.is_started(),
    {
        Benchmarker { start_time: None }
    }

    /// Starts (or restarts) the measurement at the clock reading `now`,
    /// replacing any earlier start.
    pub fn start_at(&mut self, now: Instant)
        ensures
            final(self).started_at() == Some(now),
    {
        self.start_time = Some(now);
    }

    /// Starts (or restarts) the measurement at the current time: the start
    /// recorded is the clock reading taken by this call.
    pub fn start_benchmark(&mut self)
        ensures
            final(self).is_started(),
            allowed_step(*old(self), BenchmarkCall::Start, *final(self)),
    {
        let now = clock_now();
        self.start_at(now);
    }

    /// The time since the latest start, or `None` if the benchmarker was never
    /// started. The start is kept, so a later call measures from it again.
    pub fn end_benchmark(&mut self) -> (elapsed: Option<Duration>)
        ensures
            elapsed is Some <==> old(self).is_started(),
            *final(self) == *old(self),
            allowed_step(*old(self), BenchmarkCall::End, *final(self)),
    {
        match &self.start_time {
            Some(start) => Some(clock_elapsed(start)),
            None => None,
        }
    }
}

/// A call made on a benchmarker.
pub enum BenchmarkCall {
    Start,
    End,
}

/// The step from `pre` to `post` that the contracts of the methods allow for
/// `call`: a start leaves the benchmarker started, an end leaves it as it was.
pub open spec fn allowed_step(pre: Benchmarker, call: BenchmarkCall, post: Benchmarker) -> bool {
    match call {
        BenchmarkCall::Start => post.is_started(),
        BenchmarkCall::End => post == pre,
    }
}

/// Whether `calls` holds a start.
pub open spec fn has_start(calls: Seq<BenchmarkCall>) -> bool {
    exists|i: int| 0 <= i < calls.len() && calls[i] is Start
}

/// A benchmarker made by `new` and then given any run of starts and ends is
/// started (so `end_benchmark` on it returns `Some`) exactly when the run
/// holds at least one start; ends alone never start it.
/// `states[i]` is the benchmarker before `calls[i]`, and `states[i + 1]` after.
pub proof fn law_measures_iff_started_before(states: Seq<Benchmarker>, calls: Seq<BenchmarkCall>)
    requires
        states.len() == calls.len() + 1,
        !states[0].is_started(),
        forall|i: int| 0 <= i < calls.len() ==> allowed_step(states[i], #[trigger] calls[i], states[i + 1]),
    ensures
        states.last().is_started() <==> has_start(calls),
    decreases calls.len(),
{
    if calls.len() > 0 {
        let n = calls.len() - 1;
        let pre_states = states.take(n + 1);
        let pre_calls = calls.take(n);
        assert forall|i: int| 0 <= i < pre_calls.len() implies allowed_step(
            pre_states[i],
            #[trigger] pre_calls[i],
            pre_states[i + 1],
        ) by {
            assert(calls[i] == pre_calls[i]);
        }
        law_measures_iff_started_before(pre_states, pre_calls);
        assert(allowed_step(states[n], calls[n], states[n + 1]));
        if has_start(pre_calls) {
            let j = choose|j: int| 0 <= j < pre_calls.len() && pre_calls[j] is Start;
            assert(calls[j] is Start);
        }
        if has_start(calls) && !(calls[n] is Start) {
            let j = choose|j: int| 0 <= j < calls.len() && calls[j] is Start;
            assert(pre_calls[j] is Start);
        }
    }
}

} // verus!
