//! Temporal-filtering operators over a polled sequence of timed events.
//!
//! Two operator families share one shape: wrap an upstream sequence of
//! values, hold at most one buffered "candidate" (debounce) or a cooldown
//! (throttle), and decide on every poll whether to emit a value, absorb a
//! new arrival, report that nothing is ready yet, or signal the end of the
//! sequence.
//!
//! Each operator is a plain state machine: the driver polls the upstream
//! sequence and the delay source itself and hands the observations to
//! [`debounce`] or [`throttle`] step functions, which own all of the
//! decision logic. Every variant comes in two flavors: "filter" silently
//! drops suppressed values, "annotate" surfaces each of them wrapped in a
//! distinguishable marker, so that no input is lost.

use vstd::prelude::*;

pub mod chunk;
pub mod debounce;
pub mod throttle;

verus! {

/// What one poll of the upstream sequence observed.
#[derive(Debug, Clone, Copy, PartialEq, Eq)]
pub enum UpPoll<T> {
    /// A new value arrived.
    Item(T),
    /// The upstream sequence is exhausted; it must not be polled again.
    Done,
    /// Nothing yet; the upstream will announce its next readiness itself.
    Pending,
}

/// What one poll of an operator hands to its consumer.
#[derive(Debug, Clone, Copy, PartialEq, Eq)]
pub enum Polled<A> {
    /// No output yet.
    Pending,
    /// `Ready(Some(a))` yields the value `a`; `Ready(None)` ends the sequence.
    Ready(Option<A>),
}

/// The outcome of one debounce poll: the output, plus whether the machine
/// asks its driver for an immediate re-poll. The nudge is required whenever
/// a freshly armed delay has not been polled yet and therefore cannot
/// announce its own readiness; without it the eventual delay expiry would
/// never resume the consumer.
#[derive(Debug, Clone, Copy, PartialEq, Eq)]
pub struct PollStep<A> {
    pub out: Polled<A>,
    pub wake: bool,
}

/// One recorded consumer poll of a time-based machine: the moment it
/// happened and what polling the upstream returned in it. A sequence of
/// these describes a whole run of an operator.
#[derive(Debug, Clone, Copy, PartialEq, Eq)]
pub struct TimedPoll<T> {
    pub now: u64,
    pub up: UpPoll<T>,
}

/// The values that arrived from upstream over a run, in arrival order.
pub open spec fn arrivals<T>(polls: Seq<TimedPoll<T>>) -> Seq<T>
    decreases polls.len(),
{
    if polls.len() == 0 {
        Seq::empty()
    } else {
        let rest = arrivals(polls.drop_first());
        match polls[0].up {
            UpPoll::Item(v) => seq![v] + rest,
            _ => rest,
        }
    }
}

} // verus!
