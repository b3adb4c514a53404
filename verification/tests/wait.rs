use term_test::wait::{absorb, verdict, DEFAULT_POLL_INTERVAL_NANOS, DEFAULT_TIMEOUT_NANOS};
use term_test::{ConditionWaiter, DrainStep, ScreenState, SourceEvent, TermTestError, WaitStep};

const MILLI: u128 = 1_000_000;

#[test]
fn a_waiter_starts_with_the_defaults() {
    let waiter = ConditionWaiter::new();
    assert_eq!(waiter.timeout_nanos(), 5_000_000_000);
    assert_eq!(waiter.poll_interval_nanos(), 10_000_000);
    assert_eq!(DEFAULT_TIMEOUT_NANOS, 5_000_000_000);
    assert_eq!(DEFAULT_POLL_INTERVAL_NANOS, 10_000_000);
    assert_eq!(waiter.timeout_millis(), 5000);
}

#[test]
fn the_builders_change_one_setting_each() {
    let waiter = ConditionWaiter::new().with_timeout(10_000 * MILLI);
    assert_eq!(waiter.timeout_nanos(), 10_000 * MILLI);
    assert_eq!(waiter.poll_interval_nanos(), 10 * MILLI);
    let waiter = waiter.with_poll_interval(5 * MILLI);
    assert_eq!(waiter.timeout_nanos(), 10_000 * MILLI);
    assert_eq!(waiter.poll_interval_nanos(), 5 * MILLI);
}

#[test]
fn a_condition_that_never_holds_times_out_at_the_timeout() {
    let waiter = ConditionWaiter::new().with_timeout(500 * MILLI).with_poll_interval(50 * MILLI);
    let mut elapsed: u128 = 0;
    let mut sleeps = 0;
    let step = loop {
        match waiter.decide(false, elapsed) {
            WaitStep::Sleep { nanos } => {
                assert_eq!(nanos, 50 * MILLI);
                elapsed += nanos;
                sleeps += 1;
            }
            other => break other,
        }
    };
    assert_eq!(step, WaitStep::TimedOut { timeout_ms: 500 });
    assert_eq!(sleeps, 10);
    assert_eq!(elapsed, 500 * MILLI);
    assert!(matches!(verdict(step), Some(Err(TermTestError::Timeout { timeout_ms: 500 }))));
}

#[test]
fn the_timeout_is_not_reported_early() {
    let waiter = ConditionWaiter::new().with_timeout(500 * MILLI).with_poll_interval(50 * MILLI);
    assert_eq!(waiter.decide(false, 0), WaitStep::Sleep { nanos: 50 * MILLI });
    assert_eq!(waiter.decide(false, 500 * MILLI - 1), WaitStep::Sleep { nanos: 50 * MILLI });
    assert_eq!(waiter.decide(false, 500 * MILLI), WaitStep::TimedOut { timeout_ms: 500 });
    assert_eq!(waiter.decide(false, 549 * MILLI), WaitStep::TimedOut { timeout_ms: 500 });
}

#[test]
fn a_condition_that_holds_ends_the_wait_at_once() {
    let waiter = ConditionWaiter::new().with_timeout(500 * MILLI).with_poll_interval(50 * MILLI);
    assert_eq!(waiter.decide(true, 0), WaitStep::Satisfied);
    assert_eq!(waiter.decide(true, 100 * MILLI), WaitStep::Satisfied);
    assert_eq!(waiter.decide(true, 900 * MILLI), WaitStep::Satisfied);
    assert!(matches!(verdict(WaitStep::Satisfied), Some(Ok(()))));
    assert!(verdict(WaitStep::Sleep { nanos: 1 }).is_none());
}

#[test]
fn the_reported_timeout_drops_the_fraction_of_a_millisecond() {
    let waiter = ConditionWaiter::new().with_timeout(400 * MILLI + 999_999);
    assert_eq!(waiter.timeout_millis(), 400);
    assert_eq!(waiter.decide(false, 400 * MILLI), WaitStep::Sleep { nanos: 10 * MILLI });
    assert_eq!(waiter.decide(false, 400 * MILLI + 999_999), WaitStep::TimedOut { timeout_ms: 400 });
    assert_eq!(ConditionWaiter::new().with_timeout(999_999).timeout_millis(), 0);
}

#[test]
fn the_reported_timeout_is_reduced_to_64_bits() {
    let two_to_64: u128 = 1 << 64;
    let waiter = ConditionWaiter::new().with_timeout((two_to_64 + 7) * MILLI);
    assert_eq!(waiter.timeout_millis(), 7);
    let waiter = ConditionWaiter::new().with_timeout((two_to_64 - 1) * MILLI);
    assert_eq!(waiter.timeout_millis(), u64::MAX);
}

#[test]
fn a_zero_timeout_times_out_on_the_first_failed_evaluation() {
    let waiter = ConditionWaiter::new().with_timeout(0);
    assert_eq!(waiter.decide(false, 0), WaitStep::TimedOut { timeout_ms: 0 });
    assert_eq!(waiter.decide(true, 0), WaitStep::Satisfied);
}

#[test]
fn poll_evaluates_the_condition_on_the_screen() {
    let waiter = ConditionWaiter::new().with_timeout(500 * MILLI).with_poll_interval(50 * MILLI);
    let mut screen = ScreenState::new(80, 24);
    let ready = |state: &ScreenState| state.contains("Ready");
    assert_eq!(waiter.poll(&screen, ready, 0), WaitStep::Sleep { nanos: 50 * MILLI });
    assert_eq!(waiter.poll(&screen, ready, 500 * MILLI), WaitStep::TimedOut { timeout_ms: 500 });
    screen.feed(b"Ready");
    assert_eq!(waiter.poll(&screen, ready, 600 * MILLI), WaitStep::Satisfied);
    let at = |state: &ScreenState| state.cursor_position() == (0, 5);
    assert_eq!(waiter.poll(&screen, at, 0), WaitStep::Satisfied);
}

#[test]
fn absorb_feeds_data_and_asks_for_more() {
    let mut screen = ScreenState::new(80, 24);
    assert_eq!(absorb(&mut screen, SourceEvent::Bytes(b"line1\r\n")), DrainStep::ReadAgain);
    assert_eq!(absorb(&mut screen, SourceEvent::Bytes(b"line2")), DrainStep::ReadAgain);
    assert!(screen.contains("line1"));
    assert!(screen.contains("line2"));
}

#[test]
fn absorb_stops_when_the_source_is_drained() {
    let mut screen = ScreenState::new(80, 24);
    screen.feed(b"kept");
    assert_eq!(absorb(&mut screen, SourceEvent::Bytes(b"")), DrainStep::Done);
    assert_eq!(absorb(&mut screen, SourceEvent::WouldBlock), DrainStep::Done);
    assert_eq!(screen.contents(), "kept");
}

#[test]
fn absorb_aborts_on_a_failed_read() {
    let mut screen = ScreenState::new(80, 24);
    screen.feed(b"kept");
    assert_eq!(absorb(&mut screen, SourceEvent::Failed), DrainStep::Abort);
    assert_eq!(screen.contents(), "kept");
}

#[test]
fn absorb_finds_regions_in_what_it_feeds() {
    let mut screen = ScreenState::new(80, 24);
    absorb(&mut screen, SourceEvent::Bytes(b"\x1b[2;2H\x1bPq\"8;9"));
    absorb(&mut screen, SourceEvent::WouldBlock);
    absorb(&mut screen, SourceEvent::Bytes(b"~\x1b\\"));
    assert_eq!(screen.sixel_regions().len(), 1);
    assert_eq!(screen.sixel_regions()[0].width, 8);
    assert_eq!(screen.sixel_regions()[0].start_col, 1);
}
