//! Debounce: emit only the most recent value of a burst, once a quiet
//! period has passed with no further arrivals.
//!
//! Four machines share one shape. They buffer the single latest upstream
//! value (the candidate) and emit it only once their delay source reports
//! elapsed with no newer arrival since the delay was last armed; every new
//! arrival replaces the candidate and re-arms the delay. The `*Time*`
//! machines arm a fixed quiet duration and track the resulting absolute
//! deadline themselves; the selector machines are told on each poll whether
//! the driver's per-item delay computation has resolved. The `*Filter`
//! machines discard a superseded candidate silently; the annotate machines
//! emit it wrapped in [`Debounced`] so that no input is lost.

use vstd::prelude::*;

use crate::{arrivals, Polled, PollStep, TimedPoll, UpPoll};

verus! {

/// The contents of a candidate slot as a sequence: one value when a
/// candidate is buffered, none otherwise.
pub open spec fn cand_seq<T>(c: Option<T>) -> Seq<T> {
    match c {
        Some(v) => seq![v],
        None => Seq::empty(),
    }
}

/// The value that the last arrival of a run carried, or `v0` if the run
/// holds no arrival.
pub open spec fn last_arrival_or<T>(polls: Seq<TimedPoll<T>>, v0: T) -> T
    decreases polls.len(),
{
    if polls.len() == 0 {
        v0
    } else {
        last_arrival_or(
            polls.drop_first(),
            match polls[0].up {
                UpPoll::Item(v) => v,
                _ => v0,
            },
        )
    }
}

/// The deadline armed by the last arrival of a run (`now + duration` as of
/// that arrival), or `dl0` if the run holds no arrival.
pub open spec fn last_deadline_or<T>(polls: Seq<TimedPoll<T>>, dl0: u64, duration: u64) -> u64
    decreases polls.len(),
{
    if polls.len() == 0 {
        dl0
    } else {
        last_deadline_or(
            polls.drop_first(),
            match polls[0].up {
                UpPoll::Item(_) => (polls[0].now + duration) as u64,
                _ => dl0,
            },
            duration,
        )
    }
}

/// Marker wrapping a value that a debounce operator suppressed: it was
/// superseded by a newer arrival before its quiet period had elapsed.
#[derive(Debug, Clone, Copy, PartialEq, Eq)]
pub struct Debounced<T>(pub T);

/// Debounce with a fixed quiet duration; suppressed values are dropped.
///
/// The driver owns the upstream sequence and the timer. On each consumer
/// poll it reports the current time and what polling the upstream returned
/// (only while `active`), and resets its timer to `deadline` whenever that
/// field changes.
#[derive(Debug, Clone, Copy, PartialEq, Eq)]
pub struct DebounceTimeFilter<T> {
    /// The quiet duration: how long after the last arrival the candidate
    /// must sit undisturbed before it is emitted.
    pub duration: u64,
    /// Whether the upstream sequence is still owned and may be polled.
    pub active: bool,
    /// The buffered latest arrival, not yet emitted nor superseded.
    pub candidate: Option<T>,
    /// Absolute time at which the armed delay elapses; meaningful while a
    /// candidate is buffered.
    pub deadline: u64,
}

impl<T> DebounceTimeFilter<T> {
    /// The delay source reports elapsed and a candidate is waiting: this
    /// poll must emit it, before anything else is considered.
    pub open spec fn emits(self, now: u64) -> bool {
        self.candidate is Some && now >= self.deadline
    }

    /// The machine state after one poll at time `now` that observed `up`.
    pub open spec fn step_next(self, now: u64, up: UpPoll<T>) -> Self {
        let cand = if self.emits(now) {
            None
        } else {
            self.candidate
        };
        match up {
            UpPoll::Item(v) => DebounceTimeFilter {
                duration: self.duration,
                active: self.active,
                candidate: Some(v),
                deadline: (now + self.duration) as u64,
            },
            UpPoll::Done => DebounceTimeFilter {
                duration: self.duration,
                active: false,
                candidate: cand,
                deadline: self.deadline,
            },
            UpPoll::Pending => DebounceTimeFilter {
                duration: self.duration,
                active: self.active,
                candidate: cand,
                deadline: self.deadline,
            },
        }
    }

    /// The output of that poll. An elapsed delay takes priority over
    /// everything else in the same poll; the end of the sequence is
    /// reported only once no candidate was buffered when the poll began.
    pub open spec fn step_out(self, now: u64, up: UpPoll<T>) -> Polled<T> {
        if self.emits(now) {
            Polled::Ready(Some(self.candidate->0))
        } else if self.candidate is None && !self.step_next(now, up).active {
            Polled::Ready(None)
        } else {
            Polled::Pending
        }
    }

    /// Whether that poll asks for an immediate re-poll: a value arrived
    /// into an empty candidate slot, so the freshly armed delay has never
    /// been polled and cannot yet announce its own expiry.
    pub open spec fn step_wake(self, up: UpPoll<T>) -> bool {
        up is Item && self.candidate is None
    }

    /// A fresh machine: nothing buffered, upstream owned, delay already
    /// elapsed (the deadline lies at the epoch).
    pub fn new(duration: u64) -> (s: Self)
        ensures
            s == (DebounceTimeFilter::<T> {
                duration,
                active: true,
                candidate: None,
                deadline: 0,
            }),
    {
        DebounceTimeFilter { duration, active: true, candidate: None, deadline: 0 }
    }

    /// One consumer poll at time `now`, where `up` is what polling the
    /// upstream returned (`Pending` when the upstream has already ended:
    /// an exhausted sequence is never polled again).
    pub fn poll_next(&mut self, now: u64, up: UpPoll<T>) -> (r: PollStep<T>)
        requires
            !old(self).active ==> up is Pending,
            up is Item ==> now + old(self).duration <= u64::MAX,
        ensures
            *final(self) == old(self).step_next(now, up),
            r.out == old(self).step_out(now, up),
            r.wake == old(self).step_wake(up),
    {
        let buf_empty = self.candidate.is_none();
        let mut out: Polled<T> = Polled::Pending;
        if !buf_empty && now >= self.deadline {
            out = Polled::Ready(self.candidate.take());
        }
        let mut wake = false;
        match up {
            UpPoll::Item(v) => {
                self.deadline = now + self.duration;
                self.candidate = Some(v);
                if buf_empty {
                    wake = true;
                }
            },
            UpPoll::Done => {
                self.active = false;
            },
            UpPoll::Pending => {},
        }
        if buf_empty && !self.active {
            out = Polled::Ready(None);
        }
        PollStep { out, wake }
    }

    /// The machine state after a whole run of polls.
    pub open spec fn run_state(self, polls: Seq<TimedPoll<T>>) -> Self
        decreases polls.len(),
    {
        if polls.len() == 0 {
            self
        } else {
            self.step_next(polls[0].now, polls[0].up).run_state(polls.drop_first())
        }
    }

    /// The outputs of a whole run of polls, one per poll, in order.
    pub open spec fn run_outs(self, polls: Seq<TimedPoll<T>>) -> Seq<Polled<T>>
        decreases polls.len(),
    {
        if polls.len() == 0 {
            Seq::empty()
        } else {
            seq![self.step_out(polls[0].now, polls[0].up)] + self.step_next(
                polls[0].now,
                polls[0].up,
            ).run_outs(polls.drop_first())
        }
    }

    /// With nothing buffered and nothing arriving, the machine is idle: it
    /// changes no state and reports `Pending` while the upstream is still
    /// active, or the end of the sequence once it is not.
    pub proof fn lemma_idle_run(self, polls: Seq<TimedPoll<T>>)
        requires
            self.candidate is None,
            forall|i: int| 0 <= i < polls.len() ==> polls[i].up is Pending,
        ensures
            self.run_state(polls) == self,
            self.run_outs(polls).len() == polls.len(),
            forall|i: int|
                0 <= i < polls.len() ==> self.run_outs(polls)[i] == (if self.active {
                    Polled::<T>::Pending
                } else {
                    Polled::Ready(None)
                }),
        decreases polls.len(),
    {
        if polls.len() > 0 {
            let s1 = self.step_next(polls[0].now, polls[0].up);
            assert(s1 == self);
            self.lemma_idle_run(polls.drop_first());
        }
    }

    /// Debounce flushes a buffered value after silence, and only then lets
    /// the sequence end. From a state holding a candidate, over polls that
    /// observe no further arrival: every poll before the deadline emits
    /// nothing, the first poll at or past the deadline emits exactly the
    /// buffered value, and each later poll reports `Pending` while the
    /// upstream is still active, or the end of the sequence once it is
    /// not — never before the flush.
    pub proof fn lemma_flush_after_silence(self, polls: Seq<TimedPoll<T>>, k: int)
        requires
            self.candidate is Some,
            0 <= k < polls.len(),
            forall|i: int| 0 <= i < polls.len() ==> polls[i].up is Pending,
            forall|i: int| 0 <= i < k ==> polls[i].now < self.deadline,
            polls[k].now >= self.deadline,
        ensures
            self.run_outs(polls).len() == polls.len(),
            forall|i: int| 0 <= i < k ==> self.run_outs(polls)[i] == Polled::<T>::Pending,
            self.run_outs(polls)[k] == Polled::Ready(Some(self.candidate->0)),
            forall|i: int|
                k < i < polls.len() ==> self.run_outs(polls)[i] == (if self.active {
                    Polled::<T>::Pending
                } else {
                    Polled::Ready(None)
                }),
        decreases polls.len(),
    {
        let s1 = self.step_next(polls[0].now, polls[0].up);
        if k == 0 {
            s1.lemma_idle_run(polls.drop_first());
        } else {
            assert(s1 == self);
            self.lemma_flush_after_silence(polls.drop_first(), k - 1);
        }
    }

    /// A single arrival followed by silence emits exactly the arrived
    /// value, at the first poll at least `duration` after the arrival, and
    /// nothing before or after it.
    pub proof fn lemma_single_item_flush(self, polls: Seq<TimedPoll<T>>, k: int)
        requires
            self.candidate is None,
            self.active,
            polls.len() > 0,
            polls[0].up is Item,
            polls[0].now + self.duration <= u64::MAX,
            forall|i: int| 1 <= i < polls.len() ==> polls[i].up is Pending,
            1 <= k < polls.len(),
            forall|i: int| 1 <= i < k ==> #[trigger] polls[i].now < polls[0].now + self.duration,
            polls[k].now >= polls[0].now + self.duration,
        ensures
            self.run_outs(polls).len() == polls.len(),
            forall|i: int| 0 <= i < k ==> self.run_outs(polls)[i] == Polled::<T>::Pending,
            self.run_outs(polls)[k] == Polled::Ready(Some(polls[0].up->0)),
            forall|i: int| k < i < polls.len() ==> self.run_outs(polls)[i] == Polled::<T>::Pending,
    {
        let s1 = self.step_next(polls[0].now, polls[0].up);
        s1.lemma_flush_after_silence(polls.drop_first(), k - 1);
    }

    /// Every arrival re-arms the quiet period: afterwards the candidate is
    /// the value that just arrived and the deadline lies a full `duration`
    /// past the arrival, whatever was buffered before.
    pub proof fn lemma_rearm(self, now: u64, v: T)
        requires
            now + self.duration <= u64::MAX,
        ensures
            self.step_next(now, UpPoll::Item(v)).candidate == Some(v),
            self.step_next(now, UpPoll::Item(v)).deadline == now + self.duration,
    {
    }

    /// No value is emitted before the armed deadline: an emission can only
    /// happen once `duration` has elapsed since the most recent arrival,
    /// never since an earlier one.
    pub proof fn lemma_no_early_emit(self, now: u64, up: UpPoll<T>)
        requires
            now < self.deadline,
        ensures
            !(self.step_out(now, up) matches Polled::Ready(Some(_))),
    {
    }

    /// Over a burst — every poll lands before the currently armed deadline
    /// and observes either an arrival or nothing — no value at all is
    /// emitted, and the machine ends up holding exactly the last arrival,
    /// armed to its arrival time plus `duration`. Together with
    /// [`Self::lemma_flush_after_silence`], only the last value of a burst
    /// is ever emitted.
    pub proof fn lemma_burst_collapse(self, polls: Seq<TimedPoll<T>>)
        requires
            self.candidate is Some,
            self.burst(polls),
        ensures
            self.run_outs(polls).len() == polls.len(),
            forall|i: int| 0 <= i < polls.len() ==> self.run_outs(polls)[i] == Polled::<T>::Pending,
            self.run_state(polls).candidate == Some(
                last_arrival_or(polls, self.candidate->0),
            ),
            self.run_state(polls).deadline == last_deadline_or(
                polls,
                self.deadline,
                self.duration,
            ),
            self.run_state(polls).active == self.active,
            self.run_state(polls).duration == self.duration,
        decreases polls.len(),
    {
        if polls.len() > 0 {
            let s1 = self.step_next(polls[0].now, polls[0].up);
            s1.lemma_burst_collapse(polls.drop_first());
        }
    }

    /// Runs compose: polling through `a` and then through `b` is the same
    /// as polling through their concatenation.
    pub proof fn lemma_run_append(self, a: Seq<TimedPoll<T>>, b: Seq<TimedPoll<T>>)
        ensures
            self.run_state(a + b) == self.run_state(a).run_state(b),
            self.run_outs(a + b) == self.run_outs(a) + self.run_state(a).run_outs(b),
        decreases a.len(),
    {
        if a.len() == 0 {
            assert(a + b =~= b);
            assert(self.run_outs(a) + self.run_state(a).run_outs(b) =~= self.run_outs(b));
        } else {
            let s1 = self.step_next(a[0].now, a[0].up);
            s1.lemma_run_append(a.drop_first(), b);
            assert((a + b).drop_first() =~= a.drop_first() + b);
            assert(self.run_outs(a + b) =~= self.run_outs(a) + self.run_state(a).run_outs(b));
        }
    }

    /// Only the last value of a burst is ever emitted. From a state
    /// holding a candidate, a burst followed by silence emits nothing at
    /// all during the burst, then exactly the burst's last arrival at the
    /// first quiet poll at or past the deadline that this arrival armed,
    /// and nothing after it while the upstream stays active.
    pub proof fn lemma_burst_then_flush(
        self,
        burst_polls: Seq<TimedPoll<T>>,
        quiet_polls: Seq<TimedPoll<T>>,
        k: int,
    )
        requires
            self.candidate is Some,
            self.burst(burst_polls),
            forall|i: int| 0 <= i < quiet_polls.len() ==> quiet_polls[i].up is Pending,
            0 <= k < quiet_polls.len(),
            forall|i: int|
                0 <= i < k ==> #[trigger] quiet_polls[i].now < last_deadline_or(
                    burst_polls,
                    self.deadline,
                    self.duration,
                ),
            quiet_polls[k].now >= last_deadline_or(burst_polls, self.deadline, self.duration),
        ensures
            self.run_outs(burst_polls + quiet_polls).len() == burst_polls.len()
                + quiet_polls.len(),
            forall|i: int|
                0 <= i < burst_polls.len() + k ==> self.run_outs(burst_polls + quiet_polls)[i]
                    == Polled::<T>::Pending,
            self.run_outs(burst_polls + quiet_polls)[burst_polls.len() + k] == Polled::Ready(
                Some(last_arrival_or(burst_polls, self.candidate->0)),
            ),
            forall|i: int|
                burst_polls.len() + k < i < burst_polls.len() + quiet_polls.len()
                    ==> self.run_outs(burst_polls + quiet_polls)[i] == (if self.active {
                    Polled::<T>::Pending
                } else {
                    Polled::Ready(None)
                }),
    {
        self.lemma_burst_collapse(burst_polls);
        self.lemma_run_append(burst_polls, quiet_polls);
        let mid = self.run_state(burst_polls);
        mid.lemma_flush_after_silence(quiet_polls, k);
    }

    /// A run lands inside a burst: each poll happens strictly before the
    /// deadline armed at that moment and observes an arrival or nothing —
    /// arrivals less than `duration` apart, polled early.
    pub open spec fn burst(self, polls: Seq<TimedPoll<T>>) -> bool
        decreases polls.len(),
    {
        polls.len() == 0 || {
            &&& polls[0].up is Item || polls[0].up is Pending
            &&& polls[0].now < self.deadline
            &&& (polls[0].up is Item ==> polls[0].now + self.duration <= u64::MAX)
            &&& self.step_next(polls[0].now, polls[0].up).burst(polls.drop_first())
        }
    }

    /// The machine is deterministic: two runs over the same observations
    /// from the same state produce the same outputs and the same state.
    pub proof fn lemma_deterministic(self, other: Self, polls: Seq<TimedPoll<T>>, others: Seq<
        TimedPoll<T>,
    >)
        requires
            self == other,
            polls == others,
        ensures
            self.run_outs(polls) == other.run_outs(others),
            self.run_state(polls) == other.run_state(others),
    {
    }
}

/// The values that a run of an annotate debounce machine emitted, in
/// emission order, whether accepted (`Ok`) or suppressed
/// (`Err(Debounced(..))`).
pub open spec fn debounce_out_values<T>(outs: Seq<Polled<Result<T, Debounced<T>>>>) -> Seq<T>
    decreases outs.len(),
{
    if outs.len() == 0 {
        Seq::empty()
    } else {
        let rest = debounce_out_values(outs.drop_first());
        match outs[0] {
            Polled::Ready(Some(Ok(v))) => seq![v] + rest,
            Polled::Ready(Some(Err(Debounced(v)))) => seq![v] + rest,
            _ => rest,
        }
    }
}

/// Debounce with a fixed quiet duration; suppressed values are surfaced.
///
/// Same machine as [`DebounceTimeFilter`], but whenever a new arrival
/// supersedes a buffered candidate, the old candidate is emitted in the
/// same poll wrapped as `Err(Debounced(..))` instead of being discarded,
/// so every input value appears in the output exactly once.
#[derive(Debug, Clone, Copy, PartialEq, Eq)]
pub struct DebounceTime<T> {
    /// The quiet duration: how long after the last arrival the candidate
    /// must sit undisturbed before it is emitted.
    pub duration: u64,
    /// Whether the upstream sequence is still owned and may be polled.
    pub active: bool,
    /// The buffered latest arrival, not yet emitted nor superseded.
    pub candidate: Option<T>,
    /// Absolute time at which the armed delay elapses; meaningful while a
    /// candidate is buffered.
    pub deadline: u64,
}

impl<T> DebounceTime<T> {
    /// The delay source reports elapsed and a candidate is waiting: this
    /// poll must emit it as accepted, before anything else is considered.
    pub open spec fn emits(self, now: u64) -> bool {
        self.candidate is Some && now >= self.deadline
    }

    /// The machine state after one poll at time `now` that observed `up`.
    pub open spec fn step_next(self, now: u64, up: UpPoll<T>) -> Self {
        let cand = if self.emits(now) {
            None
        } else {
            self.candidate
        };
        match up {
            UpPoll::Item(v) => DebounceTime {
                duration: self.duration,
                active: self.active,
                candidate: Some(v),
                deadline: (now + self.duration) as u64,
            },
            UpPoll::Done => DebounceTime {
                duration: self.duration,
                active: false,
                candidate: cand,
                deadline: self.deadline,
            },
            UpPoll::Pending => DebounceTime {
                duration: self.duration,
                active: self.active,
                candidate: cand,
                deadline: self.deadline,
            },
        }
    }

    /// The output of that poll. An elapsed delay still takes priority; in
    /// addition, an arrival that supersedes a still-buffered candidate
    /// emits that candidate as suppressed in the same poll.
    pub open spec fn step_out(self, now: u64, up: UpPoll<T>) -> Polled<
        Result<T, Debounced<T>>,
    > {
        if self.emits(now) {
            Polled::Ready(Some(Ok(self.candidate->0)))
        } else if up is Item && self.candidate is Some {
            Polled::Ready(Some(Err(Debounced(self.candidate->0))))
        } else if self.candidate is None && !self.step_next(now, up).active {
            Polled::Ready(None)
        } else {
            Polled::Pending
        }
    }

    /// Whether that poll asks for an immediate re-poll: a value arrived
    /// into an empty candidate slot, so the freshly armed delay has never
    /// been polled and cannot yet announce its own expiry.
    pub open spec fn step_wake(self, up: UpPoll<T>) -> bool {
        up is Item && self.candidate is None
    }

    /// A fresh machine: nothing buffered, upstream owned, delay already
    /// elapsed (the deadline lies at the epoch).
    pub fn new(duration: u64) -> (s: Self)
        ensures
            s == (DebounceTime::<T> { duration, active: true, candidate: None, deadline: 0 }),
    {
        DebounceTime { duration, active: true, candidate: None, deadline: 0 }
    }

    /// One consumer poll at time `now`, where `up` is what polling the
    /// upstream returned (`Pending` when the upstream has already ended:
    /// an exhausted sequence is never polled again).
    pub fn poll_next(&mut self, now: u64, up: UpPoll<T>) -> (r: PollStep<
        Result<T, Debounced<T>>,
    >)
        requires
            !old(self).active ==> up is Pending,
            up is Item ==> now + old(self).duration <= u64::MAX,
        ensures
            *final(self) == old(self).step_next(now, up),
            r.out == old(self).step_out(now, up),
            r.wake == old(self).step_wake(up),
    {
        let buf_empty = self.candidate.is_none();
        let mut out: Polled<Result<T, Debounced<T>>> = Polled::Pending;
        if !buf_empty && now >= self.deadline {
            match self.candidate.take() {
                Some(v) => {
                    out = Polled::Ready(Some(Ok(v)));
                },
                None => {},
            }
        }
        let mut wake = false;
        match up {
            UpPoll::Item(v) => {
                self.deadline = now + self.duration;
                let prev = self.candidate.take();
                self.candidate = Some(v);
                match prev {
                    Some(p) => {
                        out = Polled::Ready(Some(Err(Debounced(p))));
                    },
                    None => {
                        if buf_empty {
                            wake = true;
                        }
                    },
                }
            },
            UpPoll::Done => {
                self.active = false;
            },
            UpPoll::Pending => {},
        }
        if buf_empty && !self.active {
            out = Polled::Ready(None);
        }
        PollStep { out, wake }
    }

    /// The machine state after a whole run of polls.
    pub open spec fn run_state(self, polls: Seq<TimedPoll<T>>) -> Self
        decreases polls.len(),
    {
        if polls.len() == 0 {
            self
        } else {
            self.step_next(polls[0].now, polls[0].up).run_state(polls.drop_first())
        }
    }

    /// The outputs of a whole run of polls, one per poll, in order.
    pub open spec fn run_outs(self, polls: Seq<TimedPoll<T>>) -> Seq<
        Polled<Result<T, Debounced<T>>>,
    >
        decreases polls.len(),
    {
        if polls.len() == 0 {
            Seq::empty()
        } else {
            seq![self.step_out(polls[0].now, polls[0].up)] + self.step_next(
                polls[0].now,
                polls[0].up,
            ).run_outs(polls.drop_first())
        }
    }

    /// Nothing is lost and nothing is duplicated: over any run, the values
    /// the machine emitted — accepted and suppressed together, in emission
    /// order — followed by whatever is still buffered equal the initially
    /// buffered value followed by every arrival, in arrival order.
    pub proof fn lemma_conservation(self, polls: Seq<TimedPoll<T>>)
        ensures
            debounce_out_values(self.run_outs(polls)) + cand_seq(
                self.run_state(polls).candidate,
            ) == cand_seq(self.candidate) + arrivals(polls),
        decreases polls.len(),
    {
        if polls.len() == 0 {
            assert(debounce_out_values(self.run_outs(polls)) + cand_seq(self.candidate)
                =~= cand_seq(self.candidate) + arrivals(polls));
        } else {
            let now = polls[0].now;
            let up = polls[0].up;
            let out0 = self.step_out(now, up);
            let s1 = self.step_next(now, up);
            let rest = polls.drop_first();
            s1.lemma_conservation(rest);
            assert(self.run_outs(polls).drop_first() =~= s1.run_outs(rest));
            assert(debounce_out_values(self.run_outs(polls)) + cand_seq(
                self.run_state(polls).candidate,
            ) =~= cand_seq(self.candidate) + arrivals(polls));
        }
    }

    /// The machine is deterministic: two runs over the same observations
    /// from the same state produce the same outputs and the same state.
    pub proof fn lemma_deterministic(self, other: Self, polls: Seq<TimedPoll<T>>, others: Seq<
        TimedPoll<T>,
    >)
        requires
            self == other,
            polls == others,
        ensures
            self.run_outs(polls) == other.run_outs(others),
            self.run_state(polls) == other.run_state(others),
    {
    }
}

/// Debounce with a per-item delay computation; suppressed values are
/// dropped.
///
/// No delay exists until a first candidate arrives. On every arrival the
/// driver manufactures a fresh delay computation from the new candidate
/// (discarding, and thereby cancelling, the previous one) and thereafter
/// reports on each poll whether that computation has resolved.
#[derive(Debug, Clone, Copy, PartialEq, Eq)]
pub struct DebounceFilter<T> {
    /// Whether the upstream sequence is still owned and may be polled.
    pub active: bool,
    /// Whether a delay computation is currently held by the driver. It is
    /// armed on every arrival and is only ever replaced, never cleared.
    pub armed: bool,
    /// The buffered latest arrival, not yet emitted nor superseded.
    pub candidate: Option<T>,
}

impl<T> DebounceFilter<T> {
    /// The delay computation resolved while a candidate is waiting: this
    /// poll must emit it, before anything else is considered.
    pub open spec fn emits(self, delay_ready: bool) -> bool {
        self.candidate is Some && delay_ready
    }

    /// The machine state after one poll that observed `delay_ready` and
    /// `up`.
    pub open spec fn step_next(self, delay_ready: bool, up: UpPoll<T>) -> Self {
        let cand = if self.emits(delay_ready) {
            None
        } else {
            self.candidate
        };
        match up {
            UpPoll::Item(v) => DebounceFilter {
                active: self.active,
                armed: true,
                candidate: Some(v),
            },
            UpPoll::Done => DebounceFilter { active: false, armed: self.armed, candidate: cand },
            UpPoll::Pending => DebounceFilter {
                active: self.active,
                armed: self.armed,
                candidate: cand,
            },
        }
    }

    /// The output of that poll: a resolved delay flushes the candidate;
    /// the end of the sequence is reported only once no candidate was
    /// buffered when the poll began.
    pub open spec fn step_out(self, delay_ready: bool, up: UpPoll<T>) -> Polled<T> {
        if self.emits(delay_ready) {
            Polled::Ready(Some(self.candidate->0))
        } else if self.candidate is None && !self.step_next(delay_ready, up).active {
            Polled::Ready(None)
        } else {
            Polled::Pending
        }
    }

    /// Whether that poll asks for an immediate re-poll: every arrival
    /// replaces the delay computation with a fresh, never-polled one, which
    /// cannot yet announce its own resolution.
    pub open spec fn step_wake(self, up: UpPoll<T>) -> bool {
        up is Item
    }

    /// A fresh machine: nothing buffered, upstream owned, no delay armed.
    pub fn new() -> (s: Self)
        ensures
            s == (DebounceFilter::<T> { active: true, armed: false, candidate: None }),
    {
        DebounceFilter { active: true, armed: false, candidate: None }
    }

    /// One consumer poll. `delay_ready` reports whether the armed delay
    /// computation was polled and resolved in this poll; the driver polls
    /// it only while a candidate is buffered, and never again once it has
    /// resolved. `up` is what polling the upstream returned (`Pending`
    /// when the upstream has already ended).
    pub fn poll_next(&mut self, delay_ready: bool, up: UpPoll<T>) -> (r: PollStep<T>)
        requires
            !old(self).active ==> up is Pending,
            delay_ready ==> old(self).armed && old(self).candidate is Some,
        ensures
            *final(self) == old(self).step_next(delay_ready, up),
            r.out == old(self).step_out(delay_ready, up),
            r.wake == old(self).step_wake(up),
    {
        let buf_empty = self.candidate.is_none();
        let mut out: Polled<T> = Polled::Pending;
        if !buf_empty && delay_ready {
            out = Polled::Ready(self.candidate.take());
        }
        let mut wake = false;
        match up {
            UpPoll::Item(v) => {
                self.armed = true;
                self.candidate = Some(v);
                wake = true;
            },
            UpPoll::Done => {
                self.active = false;
            },
            UpPoll::Pending => {},
        }
        if buf_empty && !self.active {
            out = Polled::Ready(None);
        }
        PollStep { out, wake }
    }
}

/// One recorded consumer poll of a selector-based machine: whether the
/// armed delay computation resolved in it, and what polling the upstream
/// returned in it. A sequence of these describes a whole run.
#[derive(Debug, Clone, Copy, PartialEq, Eq)]
pub struct SelectorPoll<T> {
    pub delay_ready: bool,
    pub up: UpPoll<T>,
}

/// The values that arrived from upstream over a selector-based run, in
/// arrival order.
pub open spec fn selector_arrivals<T>(polls: Seq<SelectorPoll<T>>) -> Seq<T>
    decreases polls.len(),
{
    if polls.len() == 0 {
        Seq::empty()
    } else {
        let rest = selector_arrivals(polls.drop_first());
        match polls[0].up {
            UpPoll::Item(v) => seq![v] + rest,
            _ => rest,
        }
    }
}

/// Debounce with a per-item delay computation; suppressed values are
/// surfaced.
///
/// Same machine as [`DebounceFilter`], but a superseded candidate is
/// emitted in the same poll wrapped as `Err(Debounced(..))`, so every
/// input value appears in the output exactly once.
#[derive(Debug, Clone, Copy, PartialEq, Eq)]
pub struct Debounce<T> {
    /// Whether the upstream sequence is still owned and may be polled.
    pub active: bool,
    /// Whether a delay computation is currently held by the driver. It is
    /// armed on every arrival and is only ever replaced, never cleared.
    pub armed: bool,
    /// The buffered latest arrival, not yet emitted nor superseded.
    pub candidate: Option<T>,
}

impl<T> Debounce<T> {
    /// The delay computation resolved while a candidate is waiting: this
    /// poll must emit it as accepted, before anything else is considered.
    pub open spec fn emits(self, delay_ready: bool) -> bool {
        self.candidate is Some && delay_ready
    }

    /// The machine state after one poll that observed `delay_ready` and
    /// `up`.
    pub open spec fn step_next(self, delay_ready: bool, up: UpPoll<T>) -> Self {
        let cand = if self.emits(delay_ready) {
            None
        } else {
            self.candidate
        };
        match up {
            UpPoll::Item(v) => Debounce { active: self.active, armed: true, candidate: Some(v) },
            UpPoll::Done => Debounce { active: false, armed: self.armed, candidate: cand },
            UpPoll::Pending => Debounce { active: self.active, armed: self.armed, candidate: cand },
        }
    }

    /// The output of that poll: a resolved delay flushes the candidate as
    /// accepted; an arrival that supersedes a still-buffered candidate
    /// emits that candidate as suppressed in the same poll.
    pub open spec fn step_out(self, delay_ready: bool, up: UpPoll<T>) -> Polled<
        Result<T, Debounced<T>>,
    > {
        if self.emits(delay_ready) {
            Polled::Ready(Some(Ok(self.candidate->0)))
        } else if up is Item && self.candidate is Some {
            Polled::Ready(Some(Err(Debounced(self.candidate->0))))
        } else if self.candidate is None && !self.step_next(delay_ready, up).active {
            Polled::Ready(None)
        } else {
            Polled::Pending
        }
    }

    /// Whether that poll asks for an immediate re-poll: an arrival that
    /// superseded nothing (the slot was empty, or was flushed in this very
    /// poll) armed a fresh, never-polled delay computation.
    pub open spec fn step_wake(self, delay_ready: bool, up: UpPoll<T>) -> bool {
        up is Item && (self.candidate is None || self.emits(delay_ready))
    }

    /// A fresh machine: nothing buffered, upstream owned, no delay armed.
    pub fn new() -> (s: Self)
        ensures
            s == (Debounce::<T> { active: true, armed: false, candidate: None }),
    {
        Debounce { active: true, armed: false, candidate: None }
    }

    /// One consumer poll. `delay_ready` reports whether the armed delay
    /// computation was polled and resolved in this poll; the driver polls
    /// it only while a candidate is buffered, and never again once it has
    /// resolved. `up` is what polling the upstream returned (`Pending`
    /// when the upstream has already ended).
    pub fn poll_next(&mut self, delay_ready: bool, up: UpPoll<T>) -> (r: PollStep<
        Result<T, Debounced<T>>,
    >)
        requires
            !old(self).active ==> up is Pending,
            delay_ready ==> old(self).armed && old(self).candidate is Some,
        ensures
            *final(self) == old(self).step_next(delay_ready, up),
            r.out == old(self).step_out(delay_ready, up),
            r.wake == old(self).step_wake(delay_ready, up),
    {
        let buf_empty = self.candidate.is_none();
        let mut out: Polled<Result<T, Debounced<T>>> = Polled::Pending;
        if !buf_empty && delay_ready {
            match self.candidate.take() {
                Some(v) => {
                    out = Polled::Ready(Some(Ok(v)));
                },
                None => {},
            }
        }
        let mut wake = false;
        match up {
            UpPoll::Item(v) => {
                self.armed = true;
                let prev = self.candidate.take();
                self.candidate = Some(v);
                match prev {
                    Some(p) => {
                        out = Polled::Ready(Some(Err(Debounced(p))));
                    },
                    None => {
                        wake = true;
                    },
                }
            },
            UpPoll::Done => {
                self.active = false;
            },
            UpPoll::Pending => {},
        }
        if buf_empty && !self.active {
            out = Polled::Ready(None);
        }
        PollStep { out, wake }
    }

    /// The machine state after a whole run of polls.
    pub open spec fn run_state(self, polls: Seq<SelectorPoll<T>>) -> Self
        decreases polls.len(),
    {
        if polls.len() == 0 {
            self
        } else {
            self.step_next(polls[0].delay_ready, polls[0].up).run_state(polls.drop_first())
        }
    }

    /// The outputs of a whole run of polls, one per poll, in order.
    pub open spec fn run_outs(self, polls: Seq<SelectorPoll<T>>) -> Seq<
        Polled<Result<T, Debounced<T>>>,
    >
        decreases polls.len(),
    {
        if polls.len() == 0 {
            Seq::empty()
        } else {
            seq![self.step_out(polls[0].delay_ready, polls[0].up)] + self.step_next(
                polls[0].delay_ready,
                polls[0].up,
            ).run_outs(polls.drop_first())
        }
    }

    /// Nothing is lost and nothing is duplicated: over any run, the values
    /// the machine emitted — accepted and suppressed together, in emission
    /// order — followed by whatever is still buffered equal the initially
    /// buffered value followed by every arrival, in arrival order.
    pub proof fn lemma_conservation(self, polls: Seq<SelectorPoll<T>>)
        ensures
            debounce_out_values(self.run_outs(polls)) + cand_seq(
                self.run_state(polls).candidate,
            ) == cand_seq(self.candidate) + selector_arrivals(polls),
        decreases polls.len(),
    {
        if polls.len() == 0 {
            assert(debounce_out_values(self.run_outs(polls)) + cand_seq(self.candidate)
                =~= cand_seq(self.candidate) + selector_arrivals(polls));
        } else {
            let s1 = self.step_next(polls[0].delay_ready, polls[0].up);
            let rest = polls.drop_first();
            s1.lemma_conservation(rest);
            assert(self.run_outs(polls).drop_first() =~= s1.run_outs(rest));
            assert(debounce_out_values(self.run_outs(polls)) + cand_seq(
                self.run_state(polls).candidate,
            ) =~= cand_seq(self.candidate) + selector_arrivals(polls));
        }
    }
}

} // verus!
