use streamlet::debounce::{DebounceTime, DebounceTimeFilter, Debounced};
use streamlet::{Polled, UpPoll};

#[test]
fn single_item_flush() {
    let mut m = DebounceTimeFilter::new(200u64);
    let r = m.poll_next(0, UpPoll::Item(42));
    assert_eq!(r.out, Polled::Pending);
    assert!(r.wake);
    let r = m.poll_next(100, UpPoll::Pending);
    assert_eq!(r.out, Polled::Pending);
    let r = m.poll_next(199, UpPoll::Pending);
    assert_eq!(r.out, Polled::Pending);
    let r = m.poll_next(200, UpPoll::Pending);
    assert_eq!(r.out, Polled::Ready(Some(42)));
    assert!(!r.wake);
    let r = m.poll_next(250, UpPoll::Pending);
    assert_eq!(r.out, Polled::Pending);
}

#[test]
fn burst_collapses_to_last_value() {
    let mut m = DebounceTimeFilter::new(200u64);
    let r = m.poll_next(0, UpPoll::Item(0));
    assert_eq!(r.out, Polled::Pending);
    assert!(r.wake);
    let r = m.poll_next(50, UpPoll::Item(50));
    assert_eq!(r.out, Polled::Pending);
    assert!(!r.wake);
    let r = m.poll_next(100, UpPoll::Item(100));
    assert_eq!(r.out, Polled::Pending);
    let r = m.poll_next(250, UpPoll::Pending);
    assert_eq!(r.out, Polled::Pending);
    let r = m.poll_next(300, UpPoll::Pending);
    assert_eq!(r.out, Polled::Ready(Some(100)));
}

#[test]
fn each_arrival_rearms_the_quiet_period() {
    let mut m = DebounceTimeFilter::new(200u64);
    m.poll_next(0, UpPoll::Item(1));
    m.poll_next(150, UpPoll::Item(2));
    // 200 would have flushed value 1, but the second arrival moved the
    // deadline to 350.
    let r = m.poll_next(200, UpPoll::Pending);
    assert_eq!(r.out, Polled::Pending);
    let r = m.poll_next(349, UpPoll::Pending);
    assert_eq!(r.out, Polled::Pending);
    let r = m.poll_next(350, UpPoll::Pending);
    assert_eq!(r.out, Polled::Ready(Some(2)));
}

#[test]
fn spaced_arrivals_each_flush() {
    let mut m = DebounceTimeFilter::new(200u64);
    let r = m.poll_next(0, UpPoll::Item(0));
    assert_eq!(r.out, Polled::Pending);
    let r = m.poll_next(200, UpPoll::Pending);
    assert_eq!(r.out, Polled::Ready(Some(0)));
    let r = m.poll_next(300, UpPoll::Item(300));
    assert_eq!(r.out, Polled::Pending);
    assert!(r.wake);
    let r = m.poll_next(500, UpPoll::Pending);
    assert_eq!(r.out, Polled::Ready(Some(300)));
    let r = m.poll_next(600, UpPoll::Item(600));
    assert_eq!(r.out, Polled::Pending);
    let r = m.poll_next(800, UpPoll::Pending);
    assert_eq!(r.out, Polled::Ready(Some(600)));
}

#[test]
fn buffered_value_flushes_before_end() {
    // Upstream ends at t=50 while candidate 5 (armed at t=0) is buffered:
    // the value is still flushed once the quiet period elapses, and only
    // then does the sequence end.
    let mut m = DebounceTimeFilter::new(200u64);
    let r = m.poll_next(0, UpPoll::Item(5));
    assert_eq!(r.out, Polled::Pending);
    let r = m.poll_next(50, UpPoll::Done);
    assert_eq!(r.out, Polled::Pending);
    let r = m.poll_next(200, UpPoll::Pending);
    assert_eq!(r.out, Polled::Ready(Some(5)));
    let r = m.poll_next(250, UpPoll::Pending);
    assert_eq!(r.out, Polled::Ready(None));
}

#[test]
fn end_without_candidate_is_immediate() {
    let mut m = DebounceTimeFilter::<i32>::new(200u64);
    let r = m.poll_next(10, UpPoll::Pending);
    assert_eq!(r.out, Polled::Pending);
    let r = m.poll_next(20, UpPoll::Done);
    assert_eq!(r.out, Polled::Ready(None));
}

#[test]
fn annotate_burst_surfaces_every_value() {
    let mut m = DebounceTime::new(200u64);
    let r = m.poll_next(0, UpPoll::Item(1));
    assert_eq!(r.out, Polled::Pending);
    assert!(r.wake);
    let r = m.poll_next(50, UpPoll::Item(2));
    assert_eq!(r.out, Polled::Ready(Some(Err(Debounced(1)))));
    assert!(!r.wake);
    let r = m.poll_next(100, UpPoll::Item(3));
    assert_eq!(r.out, Polled::Ready(Some(Err(Debounced(2)))));
    let r = m.poll_next(300, UpPoll::Pending);
    assert_eq!(r.out, Polled::Ready(Some(Ok(3))));
    let r = m.poll_next(350, UpPoll::Done);
    assert_eq!(r.out, Polled::Ready(None));
}

#[test]
fn annotate_flush_and_arrival_share_a_poll() {
    let mut m = DebounceTime::new(200u64);
    m.poll_next(0, UpPoll::Item(1));
    // The quiet period has elapsed and a new value arrives in the same
    // poll: the old candidate is emitted as accepted (never as suppressed)
    // and the new value is buffered.
    let r = m.poll_next(200, UpPoll::Item(2));
    assert_eq!(r.out, Polled::Ready(Some(Ok(1))));
    assert!(!r.wake);
    let r = m.poll_next(400, UpPoll::Pending);
    assert_eq!(r.out, Polled::Ready(Some(Ok(2))));
}

#[test]
fn deterministic_across_runs() {
    let polls = [
        (0u64, UpPoll::Item(1)),
        (50, UpPoll::Item(2)),
        (120, UpPoll::Pending),
        (250, UpPoll::Pending),
        (300, UpPoll::Done),
        (310, UpPoll::Pending),
    ];
    let mut first = Vec::new();
    let mut second = Vec::new();
    for outs in [&mut first, &mut second] {
        let mut m = DebounceTimeFilter::new(200u64);
        for (now, up) in polls.iter() {
            outs.push(m.poll_next(*now, *up));
        }
    }
    assert_eq!(first, second);
}
