//! The decisions of the condition waiter and of the loop that drains a byte
//! source into a screen.
//!
//! Waiting alternates work that only the caller can do (reading the
//! terminal, reading the clock, sleeping) with decisions. The decisions are
//! here, as functions from what the caller observed to what it must do
//! next. Durations are whole nanoseconds.

use vstd::prelude::*;
use crate::error::TermTestError;
use crate::screen::ScreenState;

verus! {

/// The timeout of a waiter that was given none: five seconds.
pub const DEFAULT_TIMEOUT_NANOS: u128 = 5_000_000_000;

/// The poll interval of a waiter that was given none: ten milliseconds.
pub const DEFAULT_POLL_INTERVAL_NANOS: u128 = 10_000_000;

/// Nanoseconds in a millisecond.
pub const NANOS_PER_MILLI: u128 = 1_000_000;

/// One more than the largest value of 64 bits.
pub const MILLIS_MODULUS: u128 = 0x1_0000_0000_0000_0000;

/// A duration in whole milliseconds, as a timeout error reports it: the
/// fraction is dropped and the count is reduced to 64 bits.
pub open spec fn whole_millis(nanos: u128) -> u64 {
    ((nanos / NANOS_PER_MILLI) % MILLIS_MODULUS) as u64
}

/// What a waiter must do after one evaluation of its condition.
#[derive(Clone, Copy, Debug, PartialEq, Eq, Structural)]
pub enum WaitStep {
    /// The condition holds: the wait ends in success.
    Satisfied,
    /// The condition does not hold and the timeout has run out: the wait
    /// ends with a timeout error that reports `timeout_ms`.
    TimedOut { timeout_ms: u64 },
    /// The condition does not hold and time is left: sleep for `nanos`,
    /// then drain the source and evaluate again.
    Sleep { nanos: u128 },
}

/// The step that follows an evaluation: success as soon as the condition
/// holds, a timeout once the elapsed time has reached the timeout, and a
/// sleep of one poll interval otherwise.
pub open spec fn step_after(
    timeout_nanos: u128,
    poll_interval_nanos: u128,
    satisfied: bool,
    elapsed_nanos: u128,
) -> WaitStep {
    if satisfied {
        WaitStep::Satisfied
    } else if elapsed_nanos >= timeout_nanos {
        WaitStep::TimedOut { timeout_ms: whole_millis(timeout_nanos) }
    } else {
        WaitStep::Sleep { nanos: poll_interval_nanos }
    }
}

/// A timeout is never reported early: it takes a condition that does not
/// hold and an elapsed time that has reached the timeout. The reported
/// value is the configured timeout, whatever time has elapsed.
pub proof fn lemma_timeout_not_early(
    timeout_nanos: u128,
    poll_interval_nanos: u128,
    satisfied: bool,
    elapsed_nanos: u128,
)
    ensures
        step_after(timeout_nanos, poll_interval_nanos, satisfied, elapsed_nanos) is TimedOut <==> (
        !satisfied && elapsed_nanos >= timeout_nanos),
        step_after(timeout_nanos, poll_interval_nanos, satisfied, elapsed_nanos) is TimedOut
            ==> step_after(timeout_nanos, poll_interval_nanos, satisfied, elapsed_nanos)
            == (WaitStep::TimedOut { timeout_ms: whole_millis(timeout_nanos) }),
{
}

/// A condition that holds ends the wait in success at once, however much
/// or little time has elapsed.
pub proof fn lemma_success_is_immediate(
    timeout_nanos: u128,
    poll_interval_nanos: u128,
    elapsed_nanos: u128,
)
    ensures
        step_after(timeout_nanos, poll_interval_nanos, true, elapsed_nanos) == WaitStep::Satisfied,
{
}

/// While the condition does not hold and the timeout has not run out, the
/// waiter sleeps for exactly one poll interval before it looks again.
pub proof fn lemma_sleep_is_one_interval(
    timeout_nanos: u128,
    poll_interval_nanos: u128,
    elapsed_nanos: u128,
)
    requires
        elapsed_nanos < timeout_nanos,
    ensures
        step_after(timeout_nanos, poll_interval_nanos, false, elapsed_nanos) == (WaitStep::Sleep {
            nanos: poll_interval_nanos,
        }),
{
}

/// The timeout and the poll interval of a wait.
#[derive(Clone, Copy, Debug, PartialEq, Eq, Structural)]
pub struct ConditionWaiter {
    timeout_nanos: u128,
    poll_interval_nanos: u128,
}

impl ConditionWaiter {
    pub closed spec fn timeout(&self) -> u128 {
        self.timeout_nanos
    }

    pub closed spec fn poll_interval(&self) -> u128 {
        self.poll_interval_nanos
    }

    /// A waiter with the default timeout and poll interval.
    pub fn new() -> (waiter: ConditionWaiter)
        ensures
            waiter.timeout() == DEFAULT_TIMEOUT_NANOS,
            waiter.poll_interval() == DEFAULT_POLL_INTERVAL_NANOS,
    {
        ConditionWaiter {
            timeout_nanos: DEFAULT_TIMEOUT_NANOS,
            poll_interval_nanos: DEFAULT_POLL_INTERVAL_NANOS,
        }
    }

    /// The same waiter with another timeout.
    pub fn with_timeout(self, timeout_nanos: u128) -> (waiter: ConditionWaiter)
        ensures
            waiter.timeout() == timeout_nanos,
            waiter.poll_interval() == self.poll_interval(),
    {
        ConditionWaiter { timeout_nanos, poll_interval_nanos: self.poll_interval_nanos }
    }

    /// The same waiter with another poll interval.
    pub fn with_poll_interval(self, poll_interval_nanos: u128) -> (waiter: ConditionWaiter)
        ensures
            waiter.timeout() == self.timeout(),
            waiter.poll_interval() == poll_interval_nanos,
    {
        ConditionWaiter { timeout_nanos: self.timeout_nanos, poll_interval_nanos }
    }

    pub fn timeout_nanos(&self) -> (nanos: u128)
        ensures
            nanos == self.timeout(),
    {
        self.timeout_nanos
    }

    pub fn poll_interval_nanos(&self) -> (nanos: u128)
        ensures
            nanos == self.poll_interval(),
    {
        self.poll_interval_nanos
    }

    /// The timeout in whole milliseconds, as a timeout error reports it.
    pub fn timeout_millis(&self) -> (millis: u64)
        ensures
            millis == whole_millis(self.timeout()),
    {
        ((self.timeout_nanos / NANOS_PER_MILLI) % MILLIS_MODULUS) as u64
    }

    /// Decides what follows one evaluation of the condition. `satisfied` is
    /// what the condition returned on the freshly drained screen;
    /// `elapsed_nanos` is the time since the wait began, read after the
    /// evaluation.
    pub fn decide(&self, satisfied: bool, elapsed_nanos: u128) -> (step: WaitStep)
        ensures
            step == step_after(self.timeout(), self.poll_interval(), satisfied, elapsed_nanos),
    {
        if satisfied {
            WaitStep::Satisfied
        } else if elapsed_nanos >= self.timeout_nanos {
            WaitStep::TimedOut { timeout_ms: self.timeout_millis() }
        } else {
            WaitStep::Sleep { nanos: self.poll_interval_nanos }
        }
    }

    /// Evaluates `condition` on the screen and decides what follows.
    pub fn poll<F: Fn(&ScreenState) -> bool>(
        &self,
        state: &ScreenState,
        condition: F,
        elapsed_nanos: u128,
    ) -> (step: WaitStep)
        requires
            condition.requires((state,)),
        ensures
            exists|satisfied: bool|
                condition.ensures((state,), satisfied) && step == step_after(
                    self.timeout(),
                    self.poll_interval(),
                    satisfied,
                    elapsed_nanos,
                ),
    {
        let satisfied = condition(state);
        self.decide(satisfied, elapsed_nanos)
    }
}

/// The result with which a wait ends at `step`: success, or the timeout
/// error that carries the configured timeout. `None` while the wait goes on.
pub fn verdict(step: WaitStep) -> (result: Option<Result<(), TermTestError>>)
    ensures
        match step {
            WaitStep::Satisfied => result matches Some(Ok(_)),
            WaitStep::TimedOut { timeout_ms } => result matches Some(
                Err(TermTestError::Timeout { timeout_ms: reported }),
            ) && reported == timeout_ms,
            WaitStep::Sleep { .. } => result is None,
        },
{
    match step {
        WaitStep::Satisfied => Some(Ok(())),
        WaitStep::TimedOut { timeout_ms } => Some(Err(TermTestError::Timeout { timeout_ms })),
        WaitStep::Sleep { .. } => None,
    }
}

/// What one read of the byte source produced.
#[derive(Clone, Copy, Debug)]
pub enum SourceEvent<'a> {
    /// The bytes that the read returned. No bytes means that the source has
    /// nothing more ready.
    Bytes(&'a [u8]),
    /// The source has no data ready right now.
    WouldBlock,
    /// The read failed.
    Failed,
}

/// What the drain loop must do after one read.
#[derive(Clone, Copy, Debug, PartialEq, Eq, Structural)]
pub enum DrainStep {
    /// Data arrived and was fed to the screen: read again.
    ReadAgain,
    /// The source is drained for now: stop reading.
    Done,
    /// The read failed: stop and hand the source's error on unchanged.
    Abort,
}

/// The step that follows a read.
pub open spec fn drain_step_after(event: SourceEvent<'_>) -> DrainStep {
    match event {
        SourceEvent::Bytes(bytes) => if bytes@.len() == 0 {
            DrainStep::Done
        } else {
            DrainStep::ReadAgain
        },
        SourceEvent::WouldBlock => DrainStep::Done,
        SourceEvent::Failed => DrainStep::Abort,
    }
}

/// The bytes that a read adds to the screen.
pub open spec fn bytes_of(event: SourceEvent<'_>) -> Seq<u8> {
    match event {
        SourceEvent::Bytes(bytes) => bytes@,
        SourceEvent::WouldBlock => Seq::empty(),
        SourceEvent::Failed => Seq::empty(),
    }
}

/// Takes in what one read of the byte source produced: feeds the bytes, if
/// any, to the screen and decides whether to read again. A source without
/// data ready ends the draining without an error; a failed read aborts it.
pub fn absorb(state: &mut ScreenState, event: SourceEvent<'_>) -> (step: DrainStep)
    requires
        old(state).wf(),
    ensures
        final(state).wf(),
        final(state).rows() == old(state).rows(),
        final(state).cols() == old(state).cols(),
        final(state).fed() == old(state).fed() + bytes_of(event),
        step == drain_step_after(event),
{
    match event {
        SourceEvent::Bytes(bytes) => {
            if bytes.len() == 0 {
                assert(state.fed() + bytes@ =~= state.fed());
                DrainStep::Done
            } else {
                state.feed(bytes);
                DrainStep::ReadAgain
            }
        },
        SourceEvent::WouldBlock => {
            assert(state.fed() + Seq::<u8>::empty() =~= state.fed());
            DrainStep::Done
        },
        SourceEvent::Failed => {
            assert(state.fed() + Seq::<u8>::empty() =~= state.fed());
            DrainStep::Abort
        },
    }
}

} // verus!
