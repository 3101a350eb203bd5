//! Throttle: emit at most one value per cooldown window, accepting the
//! first eligible arrival immediately and gating the rest.
//!
//! Four machines share one shape. Unlike debounce they never buffer: each
//! poll classifies what the upstream poll returned on the spot. An arrival
//! while the cooldown from the last accepted value has elapsed (or no
//! value was accepted yet) is accepted immediately, with zero added
//! latency, and starts a new cooldown; an arrival during an outstanding
//! cooldown is suppressed. The `*Filter` machines drop suppressed values
//! silently; the annotate machines emit each wrapped in [`Throttled`]. The
//! end of the upstream propagates immediately.

use vstd::prelude::*;

use crate::{arrivals, Polled, TimedPoll, UpPoll};

verus! {

/// The values that a run of an annotate throttle machine emitted, in
/// emission order, whether accepted (`Ok`) or suppressed
/// (`Err(Throttled(..))`).
pub open spec fn throttle_out_values<T>(outs: Seq<Polled<Result<T, Throttled<T>>>>) -> Seq<T>
    decreases outs.len(),
{
    if outs.len() == 0 {
        Seq::empty()
    } else {
        let rest = throttle_out_values(outs.drop_first());
        match outs[0] {
            Polled::Ready(Some(Ok(v))) => seq![v] + rest,
            Polled::Ready(Some(Err(Throttled(v)))) => seq![v] + rest,
            _ => rest,
        }
    }
}

/// Marker wrapping a value that a throttle operator suppressed: it arrived
/// while the cooldown from the last accepted value was still outstanding.
#[derive(Debug, Clone, Copy, PartialEq, Eq)]
pub struct Throttled<T>(pub T);

/// The outcome of one poll of a selector-based throttle machine: the
/// output, plus what the driver must do with its delay computation. `arm`
/// asks it to manufacture a fresh one from the value just accepted;
/// `clear` asks it to drop a resolved one, so that a computation is never
/// polled again after resolving.
#[derive(Debug, Clone, Copy, PartialEq, Eq)]
pub struct ThrottlePoll<A> {
    pub out: Polled<A>,
    pub arm: bool,
    pub clear: bool,
}

/// Throttle with a fixed cooldown duration; suppressed values are dropped.
///
/// The driver owns the upstream sequence and the timer. On each consumer
/// poll it reports the current time and what polling the upstream
/// returned, and resets its timer to `deadline` whenever that field
/// changes.
#[derive(Debug, Clone, Copy, PartialEq, Eq)]
pub struct ThrottleTimeFilter {
    /// The cooldown duration armed on every accepted value.
    pub duration: u64,
    /// Absolute time at which the current cooldown elapses. A fresh
    /// machine starts with the deadline at the epoch, so the first arrival
    /// is always accepted.
    pub deadline: u64,
}

impl ThrottleTimeFilter {
    /// The cooldown has elapsed: an arrival in this poll is accepted.
    pub open spec fn accepts(self, now: u64) -> bool {
        now >= self.deadline
    }

    /// The machine state after one poll at time `now` that observed `up`:
    /// only an accepted arrival changes anything, starting a new cooldown.
    pub open spec fn step_next<T>(self, now: u64, up: UpPoll<T>) -> Self {
        if up is Item && self.accepts(now) {
            ThrottleTimeFilter { duration: self.duration, deadline: (now + self.duration) as u64 }
        } else {
            self
        }
    }

    /// The output of that poll: an accepted arrival is emitted
    /// immediately, a suppressed one is discarded without a trace, and the
    /// end of the upstream propagates at once.
    pub open spec fn step_out<T>(self, now: u64, up: UpPoll<T>) -> Polled<T> {
        match up {
            UpPoll::Item(v) => if self.accepts(now) {
                Polled::Ready(Some(v))
            } else {
                Polled::Pending
            },
            UpPoll::Done => Polled::Ready(None),
            UpPoll::Pending => Polled::Pending,
        }
    }

    /// A fresh machine: cooldown already elapsed.
    pub fn new(duration: u64) -> (s: Self)
        ensures
            s == (ThrottleTimeFilter { duration, deadline: 0 }),
    {
        ThrottleTimeFilter { duration, deadline: 0 }
    }

    /// One consumer poll at time `now`, where `up` is what polling the
    /// upstream returned. A suppressed arrival yields `Pending` with no
    /// wakeup of its own: the machine relies on the upstream announcing
    /// its next value.
    pub fn poll_next<T>(&mut self, now: u64, up: UpPoll<T>) -> (r: Polled<T>)
        requires
            up is Item ==> now + old(self).duration <= u64::MAX,
        ensures
            *final(self) == old(self).step_next(now, up),
            r == old(self).step_out(now, up),
    {
        match up {
            UpPoll::Item(v) => {
                if now >= self.deadline {
                    self.deadline = now + self.duration;
                    Polled::Ready(Some(v))
                } else {
                    Polled::Pending
                }
            },
            UpPoll::Done => Polled::Ready(None),
            UpPoll::Pending => Polled::Pending,
        }
    }

    /// Throttle never delays acceptance. A fresh machine (deadline at the
    /// epoch) accepts the first arrival in the same poll it is observed;
    /// thereafter an arrival at or past the armed deadline — at least
    /// `duration` after the last accepted value — is accepted and starts a
    /// new cooldown, and an earlier arrival is dropped without any state
    /// change.
    pub proof fn lemma_acceptance<T>(self, now: u64, v: T)
        ensures
            now >= self.deadline ==> self.step_out(now, UpPoll::Item(v)) == Polled::Ready(
                Some(v),
            ),
            now >= self.deadline ==> self.step_next(now, UpPoll::Item(v)).deadline == (now
                + self.duration) as u64,
            now < self.deadline ==> self.step_out(now, UpPoll::Item(v)) == Polled::<T>::Pending,
            now < self.deadline ==> self.step_next(now, UpPoll::Item(v)) == self,
    {
    }
}

/// Throttle with a fixed cooldown duration; suppressed values are
/// surfaced.
///
/// Instead of a schedulable timer this machine stores the moment of the
/// last accepted value and compares elapsed time on each arrival — every
/// arrival is classified synchronously, so nothing ever needs to be
/// awaited. The comparison is strictly greater-than: a value arriving
/// exactly `duration` after the last accepted one is still suppressed.
#[derive(Debug, Clone, Copy, PartialEq, Eq)]
pub struct ThrottleTime {
    /// The cooldown duration compared against on every arrival.
    pub duration: u64,
    /// The moment the last value was accepted; `None` until a first value
    /// arrives, which is therefore always accepted.
    pub last_time: Option<u64>,
}

impl ThrottleTime {
    /// More than `duration` has passed since the last accepted value (or
    /// none was accepted yet): an arrival in this poll is accepted.
    pub open spec fn accepts(self, now: u64) -> bool {
        match self.last_time {
            Some(last) => now - last > self.duration,
            None => true,
        }
    }

    /// The machine state after one poll at time `now` that observed `up`:
    /// only an accepted arrival changes anything, recording its moment.
    pub open spec fn step_next<T>(self, now: u64, up: UpPoll<T>) -> Self {
        if up is Item && self.accepts(now) {
            ThrottleTime { duration: self.duration, last_time: Some(now) }
        } else {
            self
        }
    }

    /// The output of that poll: an accepted arrival is emitted as `Ok`, a
    /// suppressed one as `Err(Throttled(..))` in the same poll — every
    /// arrival maps to exactly one output — and the end of the upstream
    /// propagates at once.
    pub open spec fn step_out<T>(self, now: u64, up: UpPoll<T>) -> Polled<
        Result<T, Throttled<T>>,
    > {
        match up {
            UpPoll::Item(v) => if self.accepts(now) {
                Polled::Ready(Some(Ok(v)))
            } else {
                Polled::Ready(Some(Err(Throttled(v))))
            },
            UpPoll::Done => Polled::Ready(None),
            UpPoll::Pending => Polled::Pending,
        }
    }

    /// A fresh machine: no value accepted yet.
    pub fn new(duration: u64) -> (s: Self)
        ensures
            s == (ThrottleTime { duration, last_time: None }),
    {
        ThrottleTime { duration, last_time: None }
    }

    /// One consumer poll at time `now`, where `up` is what polling the
    /// upstream returned. The clock is monotone: `now` never lies before
    /// the recorded moment of the last accepted value.
    pub fn poll_next<T>(&mut self, now: u64, up: UpPoll<T>) -> (r: Polled<
        Result<T, Throttled<T>>,
    >)
        requires
            old(self).last_time matches Some(last) ==> last <= now,
        ensures
            *final(self) == old(self).step_next(now, up),
            r == old(self).step_out(now, up),
    {
        match up {
            UpPoll::Item(v) => {
                let accept = match self.last_time {
                    Some(last) => now - last > self.duration,
                    None => true,
                };
                if accept {
                    self.last_time = Some(now);
                    Polled::Ready(Some(Ok(v)))
                } else {
                    Polled::Ready(Some(Err(Throttled(v))))
                }
            },
            UpPoll::Done => Polled::Ready(None),
            UpPoll::Pending => Polled::Pending,
        }
    }

    /// Throttle never delays acceptance. The first arrival ever presented
    /// is accepted in the same poll it is observed; an arrival strictly
    /// more than `duration` after the last accepted value is accepted and
    /// becomes the new last accepted value; an arrival at or before
    /// `duration` after it is suppressed, with no state change.
    pub proof fn lemma_acceptance<T>(self, now: u64, v: T)
        ensures
            self.last_time is None ==> self.step_out(now, UpPoll::Item(v)) == Polled::<
                Result<T, Throttled<T>>,
            >::Ready(Some(Ok(v))),
            self.last_time matches Some(last) && now - last > self.duration
                ==> self.step_out(now, UpPoll::Item(v)) == Polled::<
                Result<T, Throttled<T>>,
            >::Ready(Some(Ok(v))),
            self.accepts(now) ==> self.step_next(now, UpPoll::Item(v)).last_time == Some(now),
            self.last_time matches Some(last) && now - last <= self.duration
                ==> self.step_out(now, UpPoll::Item(v)) == Polled::<
                Result<T, Throttled<T>>,
            >::Ready(Some(Err(Throttled(v)))) && self.step_next(now, UpPoll::Item(v)) == self,
    {
    }

    /// The machine state after a whole run of polls.
    pub open spec fn run_state<T>(self, polls: Seq<TimedPoll<T>>) -> Self
        decreases polls.len(),
    {
        if polls.len() == 0 {
            self
        } else {
            self.step_next(polls[0].now, polls[0].up).run_state(polls.drop_first())
        }
    }

    /// The outputs of a whole run of polls, one per poll, in order.
    pub open spec fn run_outs<T>(self, polls: Seq<TimedPoll<T>>) -> Seq<
        Polled<Result<T, Throttled<T>>>,
    >
        decreases polls.len(),
    {
        if polls.len() == 0 {
            Seq::empty()
        } else {
            seq![self.step_out(polls[0].now, polls[0].up)] + self.step_next(
                polls[0].now,
                polls[0].up,
            ).run_outs(polls.drop_first())
        }
    }

    /// Every input value appears in the output exactly once, tagged
    /// accepted or suppressed: over any run, the values the machine
    /// emitted, in emission order, equal the arrivals, in arrival order.
    pub proof fn lemma_completeness<T>(self, polls: Seq<TimedPoll<T>>)
        ensures
            throttle_out_values(self.run_outs(polls)) == arrivals(polls),
        decreases polls.len(),
    {
        if polls.len() == 0 {
            assert(throttle_out_values(self.run_outs(polls)) =~= arrivals(polls));
        } else {
            let s1 = self.step_next(polls[0].now, polls[0].up);
            let rest = polls.drop_first();
            s1.lemma_completeness(rest);
            assert(self.run_outs(polls).drop_first() =~= s1.run_outs(rest));
            assert(throttle_out_values(self.run_outs(polls)) =~= arrivals(polls));
        }
    }

    /// The machine is deterministic: two runs over the same observations
    /// from the same state produce the same outputs and the same state.
    pub proof fn lemma_deterministic<T>(self, other: Self, polls: Seq<TimedPoll<T>>, others: Seq<
        TimedPoll<T>,
    >)
        requires
            self == other,
            polls == others,
        ensures
            self.run_outs(polls) == other.run_outs(others),
            self.run_state(polls) == other.run_state(others),
    {
    }
}

/// Throttle with a per-item delay computation; suppressed values are
/// dropped.
///
/// Accepting a value asks the driver to manufacture a fresh delay
/// computation from it; while that computation is outstanding, further
/// arrivals are suppressed. A resolved computation is cleared, so the
/// next arrival is accepted and starts a new cooldown.
#[derive(Debug, Clone, Copy, PartialEq, Eq)]
pub struct ThrottleFilter {
    /// Whether a delay computation is currently held by the driver.
    pub armed: bool,
}

impl ThrottleFilter {
    /// No cooldown computation is outstanding (none armed, or the armed
    /// one resolved in this poll): an arrival is accepted.
    pub open spec fn accepts(self, delay_ready: bool) -> bool {
        !self.armed || delay_ready
    }

    /// The machine state after one poll that observed `delay_ready` and
    /// `up`: an accepted arrival arms a fresh computation; any other
    /// observation made while no cooldown is outstanding leaves the
    /// machine unarmed.
    pub open spec fn step_next<T>(self, delay_ready: bool, up: UpPoll<T>) -> Self {
        if self.accepts(delay_ready) {
            ThrottleFilter { armed: up is Item }
        } else {
            self
        }
    }

    /// The output of that poll: an accepted arrival is emitted
    /// immediately, a suppressed one is discarded without a trace, and the
    /// end of the upstream propagates at once.
    pub open spec fn step_out<T>(self, delay_ready: bool, up: UpPoll<T>) -> Polled<T> {
        match up {
            UpPoll::Item(v) => if self.accepts(delay_ready) {
                Polled::Ready(Some(v))
            } else {
                Polled::Pending
            },
            UpPoll::Done => Polled::Ready(None),
            UpPoll::Pending => Polled::Pending,
        }
    }

    /// A fresh machine: no delay armed, so the first arrival is always
    /// accepted.
    pub fn new() -> (s: Self)
        ensures
            s == (ThrottleFilter { armed: false }),
    {
        ThrottleFilter { armed: false }
    }

    /// One consumer poll. `delay_ready` reports whether the armed delay
    /// computation was polled and resolved in this poll; `up` is what
    /// polling the upstream returned. The returned `arm` and `clear` tell
    /// the driver what to do with its computation.
    pub fn poll_next<T>(&mut self, delay_ready: bool, up: UpPoll<T>) -> (r: ThrottlePoll<T>)
        requires
            delay_ready ==> old(self).armed,
        ensures
            *final(self) == old(self).step_next(delay_ready, up),
            r.out == old(self).step_out(delay_ready, up),
            r.arm == (up is Item && old(self).accepts(delay_ready)),
            r.clear == (up !is Item && old(self).accepts(delay_ready)),
    {
        let select = !self.armed || delay_ready;
        match up {
            UpPoll::Item(v) => {
                if select {
                    self.armed = true;
                    ThrottlePoll { out: Polled::Ready(Some(v)), arm: true, clear: false }
                } else {
                    ThrottlePoll { out: Polled::Pending, arm: false, clear: false }
                }
            },
            UpPoll::Done => {
                if select {
                    self.armed = false;
                }
                ThrottlePoll { out: Polled::Ready(None), arm: false, clear: select }
            },
            UpPoll::Pending => {
                if select {
                    self.armed = false;
                }
                ThrottlePoll { out: Polled::Pending, arm: false, clear: select }
            },
        }
    }
}

/// Throttle with a per-item delay computation; suppressed values are
/// surfaced.
///
/// Same machine as [`ThrottleFilter`], but a suppressed arrival is emitted
/// in the same poll wrapped as `Err(Throttled(..))`, so every input value
/// appears in the output exactly once.
#[derive(Debug, Clone, Copy, PartialEq, Eq)]
pub struct Throttle {
    /// Whether a delay computation is currently held by the driver.
    pub armed: bool,
}

impl Throttle {
    /// No cooldown computation is outstanding (none armed, or the armed
    /// one resolved in this poll): an arrival is accepted.
    pub open spec fn accepts(self, delay_ready: bool) -> bool {
        !self.armed || delay_ready
    }

    /// The machine state after one poll that observed `delay_ready` and
    /// `up`: an accepted arrival arms a fresh computation; any other
    /// observation made while no cooldown is outstanding leaves the
    /// machine unarmed.
    pub open spec fn step_next<T>(self, delay_ready: bool, up: UpPoll<T>) -> Self {
        if self.accepts(delay_ready) {
            Throttle { armed: up is Item }
        } else {
            self
        }
    }

    /// The output of that poll: an accepted arrival is emitted as `Ok`, a
    /// suppressed one as `Err(Throttled(..))` in the same poll — every
    /// arrival maps to exactly one output — and the end of the upstream
    /// propagates at once.
    pub open spec fn step_out<T>(self, delay_ready: bool, up: UpPoll<T>) -> Polled<
        Result<T, Throttled<T>>,
    > {
        match up {
            UpPoll::Item(v) => if self.accepts(delay_ready) {
                Polled::Ready(Some(Ok(v)))
            } else {
                Polled::Ready(Some(Err(Throttled(v))))
            },
            UpPoll::Done => Polled::Ready(None),
            UpPoll::Pending => Polled::Pending,
        }
    }

    /// A fresh machine: no delay armed, so the first arrival is always
    /// accepted.
    pub fn new() -> (s: Self)
        ensures
            s == (Throttle { armed: false }),
    {
        Throttle { armed: false }
    }

    /// One consumer poll. `delay_ready` reports whether the armed delay
    /// computation was polled and resolved in this poll; `up` is what
    /// polling the upstream returned. The returned `arm` and `clear` tell
    /// the driver what to do with its computation.
    pub fn poll_next<T>(&mut self, delay_ready: bool, up: UpPoll<T>) -> (r: ThrottlePoll<
        Result<T, Throttled<T>>,
    >)
        requires
            delay_ready ==> old(self).armed,
        ensures
            *final(self) == old(self).step_next(delay_ready, up),
            r.out == old(self).step_out(delay_ready, up),
            r.arm == (up is Item && old(self).accepts(delay_ready)),
            r.clear == (up !is Item && old(self).accepts(delay_ready)),
    {
        let select = !self.armed || delay_ready;
        match up {
            UpPoll::Item(v) => {
                if select {
                    self.armed = true;
                    ThrottlePoll { out: Polled::Ready(Some(Ok(v))), arm: true, clear: false }
                } else {
                    ThrottlePoll {
                        out: Polled::Ready(Some(Err(Throttled(v)))),
                        arm: false,
                        clear: false,
                    }
                }
            },
            UpPoll::Done => {
                if select {
                    self.armed = false;
                }
                ThrottlePoll { out: Polled::Ready(None), arm: false, clear: select }
            },
            UpPoll::Pending => {
                if select {
                    self.armed = false;
                }
                ThrottlePoll { out: Polled::Pending, arm: false, clear: select }
            },
        }
    }
}

} // verus!
