use streamlet::throttle::{Throttle, ThrottleFilter, ThrottleTime, ThrottleTimeFilter, Throttled};
use streamlet::{Polled, UpPoll};

#[test]
fn filter_accepts_first_immediately() {
    let mut m = ThrottleTimeFilter::new(200u64);
    let r = m.poll_next(0, UpPoll::Item(7));
    assert_eq!(r, Polled::Ready(Some(7)));
}

#[test]
fn filter_drops_during_cooldown() {
    let mut m = ThrottleTimeFilter::new(200u64);
    let r = m.poll_next(0, UpPoll::Item(0));
    assert_eq!(r, Polled::Ready(Some(0)));
    let r = m.poll_next(50, UpPoll::Item(50));
    assert_eq!(r, Polled::Pending);
    let r = m.poll_next(250, UpPoll::Item(250));
    assert_eq!(r, Polled::Ready(Some(250)));
    let r = m.poll_next(300, UpPoll::Done);
    assert_eq!(r, Polled::<i32>::Ready(None));
}

#[test]
fn filter_cooldown_boundary_accepts() {
    // The filter variant goes by delay elapsedness: a value arriving
    // exactly `duration` after the last accepted one is accepted.
    let mut m = ThrottleTimeFilter::new(200u64);
    assert_eq!(m.poll_next(0, UpPoll::Item(1)), Polled::Ready(Some(1)));
    assert_eq!(m.poll_next(200, UpPoll::Item(2)), Polled::Ready(Some(2)));
}

#[test]
fn annotate_tags_every_arrival() {
    let mut m = ThrottleTime::new(200u64);
    let r = m.poll_next(0, UpPoll::Item(0));
    assert_eq!(r, Polled::Ready(Some(Ok(0))));
    let r = m.poll_next(50, UpPoll::Item(50));
    assert_eq!(r, Polled::Ready(Some(Err(Throttled(50)))));
    let r = m.poll_next(250, UpPoll::Item(250));
    assert_eq!(r, Polled::Ready(Some(Ok(250))));
    let r = m.poll_next(300, UpPoll::Done);
    assert_eq!(r, Polled::<Result<i32, Throttled<i32>>>::Ready(None));
}

#[test]
fn annotate_cooldown_boundary_suppresses() {
    // The annotate variant compares elapsed time strictly: a value
    // arriving exactly `duration` after the last accepted one is still
    // suppressed; one instant later it is accepted.
    let mut m = ThrottleTime::new(200u64);
    assert_eq!(m.poll_next(0, UpPoll::Item(1)), Polled::Ready(Some(Ok(1))));
    assert_eq!(
        m.poll_next(200, UpPoll::Item(2)),
        Polled::Ready(Some(Err(Throttled(2))))
    );
    assert_eq!(m.poll_next(201, UpPoll::Item(3)), Polled::Ready(Some(Ok(3))));
}

#[test]
fn annotate_quiet_polls_emit_nothing() {
    let mut m = ThrottleTime::new(200u64);
    assert_eq!(m.poll_next(10, UpPoll::<i32>::Pending), Polled::Pending);
    assert_eq!(m.poll_next(20, UpPoll::Item(1)), Polled::Ready(Some(Ok(1))));
    assert_eq!(m.poll_next(30, UpPoll::<i32>::Pending), Polled::Pending);
}

#[test]
fn selector_filter_gates_on_delay() {
    let mut m = ThrottleFilter::new();
    // Nothing armed: first arrival accepted, a cooldown computation is
    // manufactured from it.
    let r = m.poll_next(false, UpPoll::Item(1));
    assert_eq!(r.out, Polled::Ready(Some(1)));
    assert!(r.arm);
    assert!(!r.clear);
    // Cooldown outstanding: suppressed, dropped without a trace.
    let r = m.poll_next(false, UpPoll::Item(2));
    assert_eq!(r.out, Polled::Pending);
    assert!(!r.arm);
    assert!(!r.clear);
    // Cooldown resolved in the same poll as an arrival: accepted.
    let r = m.poll_next(true, UpPoll::Item(3));
    assert_eq!(r.out, Polled::Ready(Some(3)));
    assert!(r.arm);
    // Cooldown resolved with nothing arriving: the computation is cleared
    // so it is never polled again.
    let r = m.poll_next(true, UpPoll::<i32>::Pending);
    assert_eq!(r.out, Polled::Pending);
    assert!(r.clear);
    // Unarmed again: next arrival accepted.
    let r = m.poll_next(false, UpPoll::Item(4));
    assert_eq!(r.out, Polled::Ready(Some(4)));
    assert!(r.arm);
    // End propagates immediately; the unresolved cooldown is kept.
    let r = m.poll_next(false, UpPoll::<i32>::Done);
    assert_eq!(r.out, Polled::Ready(None));
    assert!(!r.clear);
}

#[test]
fn selector_annotate_tags_suppressed() {
    let mut m = Throttle::new();
    let r = m.poll_next(false, UpPoll::Item(1));
    assert_eq!(r.out, Polled::Ready(Some(Ok(1))));
    assert!(r.arm);
    let r = m.poll_next(false, UpPoll::Item(2));
    assert_eq!(r.out, Polled::Ready(Some(Err(Throttled(2)))));
    assert!(!r.arm);
    let r = m.poll_next(true, UpPoll::Item(3));
    assert_eq!(r.out, Polled::Ready(Some(Ok(3))));
    assert!(r.arm);
    let r = m.poll_next(false, UpPoll::<i32>::Done);
    assert_eq!(r.out, Polled::Ready(None));
}

#[test]
fn throttle_deterministic_across_runs() {
    let polls = [
        (0u64, UpPoll::Item(1)),
        (100, UpPoll::Item(2)),
        (150, UpPoll::Pending),
        (201, UpPoll::Item(3)),
        (300, UpPoll::Done),
    ];
    let mut first = Vec::new();
    let mut second = Vec::new();
    for outs in [&mut first, &mut second] {
        let mut m = ThrottleTime::new(200u64);
        for (now, up) in polls.iter() {
            outs.push(m.poll_next(*now, *up));
        }
    }
    assert_eq!(first, second);
}
