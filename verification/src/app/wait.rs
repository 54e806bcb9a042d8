//! Waiting for the compositor until a condition holds or the time is up.
//!
//! The program performs the actions and reports what came of them; which action comes
//! next is decided here.
use nix::poll::{PollFlags, PollTimeout};
use vstd::prelude::*;

verus! {

/// What the program is to do next.
#[derive(Clone, Copy, Debug, PartialEq, Eq, Structural)]
pub enum WaitAction {
    /// Send the requests that are queued.
    Flush,
    /// Test the condition and the clock.
    Check,
    /// Prepare to read events.
    PrepareRead,
    /// Wait for the connection to be readable, for at most this many milliseconds.
    Poll(i32),
    /// Read events.
    Read,
    /// Dispatch the events that were read.
    Dispatch,
    /// The wait is over.
    Finish,
    /// The wait failed.
    Fail(WaitError),
}

#[derive(Clone, Copy, Debug, PartialEq, Eq, Structural)]
pub enum WaitError {
    Flush,
    Read,
    Poll,
    /// Dispatching failed where events were queued already.
    Dispatch,
    /// Dispatching failed after a read.
    DispatchAfterRead,
}

/// What came of polling the connection.
#[derive(Clone, Copy, Debug, PartialEq, Eq, Structural)]
pub enum PollOutcome {
    /// The number of descriptors with events, and the events; `None` where they are
    /// not all known.
    Ready(i32, Option<i16>),
    /// A signal came in between.
    Interrupted,
    Failed,
}

/// What came of reading events.
#[derive(Clone, Copy, Debug, PartialEq, Eq, Structural)]
pub enum ReadOutcome {
    Done,
    /// There was nothing to read after all.
    WouldBlock,
    Failed,
}

/// What came of an action.
#[derive(Clone, Copy, Debug, PartialEq, Eq, Structural)]
pub enum WaitEvent {
    Flushed(bool),
    /// Whether the condition holds, and the time that is left.
    Checked { finished: bool, secs: u64, nanos: u32 },
    /// Whether a read can be prepared; it cannot while events are queued.
    Prepared(bool),
    Polled(PollOutcome),
    WasRead(ReadOutcome),
    Dispatched(bool),
}

/// Where the wait stands, that is, which action was given out.
#[derive(Clone, Copy, Debug, PartialEq, Eq, Structural)]
pub enum WaitState {
    Flushing,
    Checking,
    /// A read is prepared; the time that was left is remembered.
    Preparing { secs: u64, nanos: u32 },
    Polling,
    Reading,
    /// Events are dispatched, after a read or because some were queued.
    Dispatching { after_read: bool },
    Finished,
    Failed,
}

/// The whole milliseconds of a time.
pub open spec fn millis(secs: u64, nanos: u32) -> int {
    secs * 1000 + nanos as int / 1_000_000
}

/// Calls `PollTimeout::try_from` on the time, which takes its whole milliseconds where
/// they fit an `i32` and fails where they do not.
#[verifier::external_body]
fn poll_timeout(secs: u64, nanos: u32) -> (r: Option<i32>)
    requires
        nanos < 1_000_000_000,
    ensures
        r == if millis(secs, nanos) <= i32::MAX {
            Some(millis(secs, nanos) as i32)
        } else {
            None
        },
{
    match PollTimeout::try_from(std::time::Duration::new(secs, nanos)) {
        Ok(timeout) => Some(i32::from(timeout)),
        Err(_) => None,
    }
}

/// Calls `PollFlags::contains` for `PollFlags::POLLIN`, whose one bit is the lowest.
#[verifier::external_body]
fn contains_pollin(bits: i16) -> (r: bool)
    ensures
        r == (bits & 1 == 1),
{
    PollFlags::from_bits_truncate(bits).contains(PollFlags::POLLIN)
}

/// What is said of a wait that failed, before what is known of the cause.
pub open spec fn failure_of(e: WaitError) -> Seq<char> {
    match e {
        WaitError::Flush => "Error flushing pending outgoing events"@,
        WaitError::Read => "Error reading Wayland events"@,
        WaitError::Poll => "Error in Wayland poll"@,
        WaitError::Dispatch => "Error in dispatch_pending"@,
        WaitError::DispatchAfterRead => "Error in dispatch_pending after reading"@,
    }
}

/// What to say of a wait that failed.
pub fn failure_text(e: WaitError) -> (r: &'static str)
    ensures
        r@ == failure_of(e),
{
    match e {
        WaitError::Flush => "Error flushing pending outgoing events",
        WaitError::Read => "Error reading Wayland events",
        WaitError::Poll => "Error in Wayland poll",
        WaitError::Dispatch => "Error in dispatch_pending",
        WaitError::DispatchAfterRead => "Error in dispatch_pending after reading",
    }
}

/// How long to poll: the time that is left, or the longest there is.
pub open spec fn poll_millis(secs: u64, nanos: u32) -> i32 {
    if millis(secs, nanos) <= i32::MAX {
        millis(secs, nanos) as i32
    } else {
        i32::MAX
    }
}

/// Whether the events say that there is something to read.
pub open spec fn is_readable(revents: Option<i16>) -> bool {
    revents matches Some(bits) && bits & 1 == 1
}

/// The next state and action. An event that does not answer the last action changes
/// nothing and is answered by no new action.
pub open spec fn next(s: WaitState, e: WaitEvent) -> Option<(WaitState, WaitAction)> {
    match (s, e) {
        (WaitState::Flushing, WaitEvent::Flushed(ok)) => Some(
            if ok {
                (WaitState::Checking, WaitAction::Check)
            } else {
                (WaitState::Failed, WaitAction::Fail(WaitError::Flush))
            },
        ),
        (WaitState::Checking, WaitEvent::Checked { finished, secs, nanos }) => Some(
            if finished || (secs == 0 && nanos == 0) {
                (WaitState::Finished, WaitAction::Finish)
            } else {
                (WaitState::Preparing { secs, nanos }, WaitAction::PrepareRead)
            },
        ),
        (WaitState::Preparing { secs, nanos }, WaitEvent::Prepared(ok)) => Some(
            if ok {
                (WaitState::Polling, WaitAction::Poll(poll_millis(secs, nanos)))
            } else {
                (WaitState::Dispatching { after_read: false }, WaitAction::Dispatch)
            },
        ),
        (WaitState::Polling, WaitEvent::Polled(outcome)) => Some(
            match outcome {
                PollOutcome::Ready(n, revents) => if n == 0 {
                    (WaitState::Checking, WaitAction::Check)
                } else if is_readable(revents) {
                    (WaitState::Reading, WaitAction::Read)
                } else {
                    (WaitState::Dispatching { after_read: true }, WaitAction::Dispatch)
                },
                PollOutcome::Interrupted => (WaitState::Checking, WaitAction::Check),
                PollOutcome::Failed => (WaitState::Failed, WaitAction::Fail(WaitError::Poll)),
            },
        ),
        (WaitState::Reading, WaitEvent::WasRead(outcome)) => Some(
            match outcome {
                ReadOutcome::Failed => (WaitState::Failed, WaitAction::Fail(WaitError::Read)),
                _ => (WaitState::Dispatching { after_read: true }, WaitAction::Dispatch),
            },
        ),
        (WaitState::Dispatching { after_read }, WaitEvent::Dispatched(ok)) => Some(
            if ok {
                (WaitState::Checking, WaitAction::Check)
            } else if after_read {
                (WaitState::Failed, WaitAction::Fail(WaitError::DispatchAfterRead))
            } else {
                (WaitState::Failed, WaitAction::Fail(WaitError::Dispatch))
            },
        ),
        _ => None,
    }
}

/// The times that a clock can give.
pub open spec fn valid_event(e: WaitEvent) -> bool {
    e matches WaitEvent::Checked { finished, secs, nanos } ==> nanos < 1_000_000_000
}

pub open spec fn valid_state(s: WaitState) -> bool {
    s matches WaitState::Preparing { secs, nanos } ==> nanos < 1_000_000_000
}

/// A wait in progress.
pub struct Wait {
    state: WaitState,
}

impl Wait {
    pub closed spec fn state(self) -> WaitState {
        self.state
    }

    pub closed spec fn wf(self) -> bool {
        valid_state(self.state)
    }

    /// A wait that starts; what is queued is sent first.
    pub fn start() -> (r: (Wait, WaitAction))
        ensures
            r.0.wf(),
            r.0.state() == WaitState::Flushing,
            r.1 == WaitAction::Flush,
    {
        (Wait { state: WaitState::Flushing }, WaitAction::Flush)
    }

    /// The action that follows what came of the last one; `None` where the event does not
    /// answer it.
    pub fn wait_for_wayland_events_state(&mut self, event: WaitEvent) -> (r: Option<WaitAction>)
        requires
            old(self).wf(),
            valid_event(event),
        ensures
            final(self).wf(),
            match next(old(self).state(), event) {
                Some((s, a)) => final(self).state() == s && r == Some(a),
                None => final(self).state() == old(self).state() && r is None,
            },
    {
        let (state, action): (WaitState, WaitAction) = match (self.state, event) {
            (WaitState::Flushing, WaitEvent::Flushed(ok)) => if ok {
                (WaitState::Checking, WaitAction::Check)
            } else {
                (WaitState::Failed, WaitAction::Fail(WaitError::Flush))
            },
            (WaitState::Checking, WaitEvent::Checked { finished, secs, nanos }) => if finished
                || (secs == 0 && nanos == 0) {
                (WaitState::Finished, WaitAction::Finish)
            } else {
                (WaitState::Preparing { secs, nanos }, WaitAction::PrepareRead)
            },
            (WaitState::Preparing { secs, nanos }, WaitEvent::Prepared(ok)) => if ok {
                let timeout: i32 = match poll_timeout(secs, nanos) {
                    Some(t) => t,
                    None => i32::MAX,
                };
                (WaitState::Polling, WaitAction::Poll(timeout))
            } else {
                (WaitState::Dispatching { after_read: false }, WaitAction::Dispatch)
            },
            (WaitState::Polling, WaitEvent::Polled(outcome)) => match outcome {
                PollOutcome::Ready(n, revents) => {
                    let readable: bool = match revents {
                        Some(bits) => contains_pollin(bits),
                        None => false,
                    };
                    if n == 0 {
                        (WaitState::Checking, WaitAction::Check)
                    } else if readable {
                        (WaitState::Reading, WaitAction::Read)
                    } else {
                        (WaitState::Dispatching { after_read: true }, WaitAction::Dispatch)
                    }
                },
                PollOutcome::Interrupted => (WaitState::Checking, WaitAction::Check),
                PollOutcome::Failed => (WaitState::Failed, WaitAction::Fail(WaitError::Poll)),
            },
            (WaitState::Reading, WaitEvent::WasRead(outcome)) => match outcome {
                ReadOutcome::Failed => (WaitState::Failed, WaitAction::Fail(WaitError::Read)),
                _ => (WaitState::Dispatching { after_read: true }, WaitAction::Dispatch),
            },
            (WaitState::Dispatching { after_read }, WaitEvent::Dispatched(ok)) => if ok {
                (WaitState::Checking, WaitAction::Check)
            } else if after_read {
                (WaitState::Failed, WaitAction::Fail(WaitError::DispatchAfterRead))
            } else {
                (WaitState::Failed, WaitAction::Fail(WaitError::Dispatch))
            },
            _ => return None,
        };
        self.state = state;
        Some(action)
    }
}

/// The state after a run of events.
pub open spec fn run(s: WaitState, events: Seq<WaitEvent>) -> WaitState
    decreases events.len(),
{
    if events.len() == 0 {
        s
    } else {
        let before = run(s, events.drop_last());
        match next(before, events.last()) {
            Some((after, _)) => after,
            None => before,
        }
    }
}

/// Whether an event says that the condition holds or the time is up.
pub open spec fn ends_wait(e: WaitEvent) -> bool {
    e matches WaitEvent::Checked { finished, secs, nanos } && (finished || (secs == 0 && nanos
        == 0))
}

/// Whether an event reports a failure.
pub open spec fn is_failure(e: WaitEvent) -> bool {
    match e {
        WaitEvent::Flushed(ok) => !ok,
        WaitEvent::Dispatched(ok) => !ok,
        WaitEvent::Polled(o) => o is Failed,
        WaitEvent::WasRead(o) => o is Failed,
        _ => false,
    }
}

/// A wait ends well only after a check that found the condition to hold or the time to
/// be up, and fails only after a step that failed, whatever the order of events.
pub proof fn law_wait_ends_for_cause(events: Seq<WaitEvent>)
    ensures
        run(WaitState::Flushing, events) is Finished ==> exists|i: int|
            0 <= i < events.len() && ends_wait(#[trigger] events[i]),
        run(WaitState::Flushing, events) is Failed ==> exists|i: int|
            0 <= i < events.len() && is_failure(#[trigger] events[i]),
    decreases events.len(),
{
    if events.len() > 0 {
        let front = events.drop_last();
        law_wait_ends_for_cause(front);
        let before = run(WaitState::Flushing, front);
        if before is Finished {
            let i = choose|i: int| 0 <= i < front.len() && ends_wait(#[trigger] front[i]);
            assert(events[i] == front[i]);
        }
        if before is Failed {
            let i = choose|i: int| 0 <= i < front.len() && is_failure(#[trigger] front[i]);
            assert(events[i] == front[i]);
        }
        assert(events[events.len() - 1] == events.last());
    }
}

/// A check that finds the condition to hold, or the time to be up, ends the wait.
pub proof fn law_check_ends_wait(e: WaitEvent)
    requires
        ends_wait(e),
    ensures
        next(WaitState::Checking, e) == Some((WaitState::Finished, WaitAction::Finish)),
{
}

/// Events that were read are dispatched before the condition is tested again.
pub proof fn law_read_is_dispatched(outcome: ReadOutcome)
    requires
        !(outcome is Failed),
    ensures
        next(WaitState::Reading, WaitEvent::WasRead(outcome)) == Some(
            (WaitState::Dispatching { after_read: true }, WaitAction::Dispatch),
        ),
        next(WaitState::Dispatching { after_read: true }, WaitEvent::Dispatched(true)) == Some(
            (WaitState::Checking, WaitAction::Check),
        ),
{
}

/// A poll never lasts longer than the time that was left.
pub proof fn law_poll_is_bounded(secs: u64, nanos: u32)
    requires
        nanos < 1_000_000_000,
    ensures
        0 <= poll_millis(secs, nanos) <= millis(secs, nanos),
{
}

/// While the condition does not hold and time is left, the wait goes on: a read is prepared,
/// and where events are queued already they are dispatched first.
pub proof fn law_wait_goes_on_while_time_is_left(secs: u64, nanos: u32, prepared: bool)
    requires
        secs > 0 || nanos > 0,
    ensures
        next(
            WaitState::Checking,
            (WaitEvent::Checked { finished: false, secs, nanos }),
        ) matches Some((after, action)) && {
            &&& action == WaitAction::PrepareRead
            &&& next(after, WaitEvent::Prepared(false)) == Some(
                (WaitState::Dispatching { after_read: false }, WaitAction::Dispatch),
            )
            &&& next(after, WaitEvent::Prepared(true)) matches Some((polling, poll)) && {
                &&& polling == WaitState::Polling
                &&& poll matches WaitAction::Poll(t) && {
                    &&& t < i32::MAX ==> t * 1_000_000 <= secs * 1_000_000_000 + nanos < (t + 1)
                        * 1_000_000
                    &&& t == i32::MAX ==> secs * 1_000_000_000 + nanos >= t * 1_000_000
                }
            }
        },
{
}

/// After a poll, events are read exactly where the connection is readable, that is, where the
/// lowest bit of what is known of it is set. Without any, and after a signal, the condition is
/// tested again; what else came up is dispatched.
pub proof fn law_poll_leads_to_a_read(n: i32, revents: Option<i16>)
    ensures
        next(WaitState::Polling, WaitEvent::Polled(PollOutcome::Ready(n, revents))) matches Some(
            (_, action),
        ) && {
            &&& n == 0 <==> action == WaitAction::Check
            &&& n != 0 && (revents matches Some(bits) && bits & 1 == 1) <==> action
                == WaitAction::Read
            &&& n != 0 && !(revents matches Some(bits) && bits & 1 == 1) <==> action
                == WaitAction::Dispatch
        },
        next(WaitState::Polling, WaitEvent::Polled(PollOutcome::Interrupted)) == Some(
            (WaitState::Checking, WaitAction::Check),
        ),
{
}

/// Every step that fails ends the wait with an error of its own, and no other event does.
pub proof fn law_each_failure_has_its_error(s: WaitState, e: WaitEvent)
    ensures
        ({
            let failed: Option<WaitError> = match (s, e) {
                (WaitState::Flushing, WaitEvent::Flushed(false)) => Some(WaitError::Flush),
                (WaitState::Polling, WaitEvent::Polled(PollOutcome::Failed)) => Some(
                    WaitError::Poll,
                ),
                (WaitState::Reading, WaitEvent::WasRead(ReadOutcome::Failed)) => Some(
                    WaitError::Read,
                ),
                (WaitState::Dispatching { after_read: false }, WaitEvent::Dispatched(
                    false,
                )) => Some(WaitError::Dispatch),
                (WaitState::Dispatching { after_read: true }, WaitEvent::Dispatched(
                    false,
                )) => Some(WaitError::DispatchAfterRead),
                _ => None,
            };
            match failed {
                Some(error) => next(s, e) == Some((WaitState::Failed, WaitAction::Fail(error))),
                None => !(next(s, e) matches Some((_, a)) && a is Fail),
            }
        }),
        next(s, e) matches Some((_, a)) && a is Finish ==> s == WaitState::Checking && ends_wait(e),
        next(WaitState::Flushing, WaitEvent::Flushed(true)) == Some(
            (WaitState::Checking, WaitAction::Check),
        ),
        next(
            (WaitState::Dispatching { after_read: false }),
            WaitEvent::Dispatched(true),
        ) == Some((WaitState::Checking, WaitAction::Check)),
{
}

/// The condition ends the wait, and so does the end of the time; nothing else does.
pub proof fn law_wait_is_over_when_it_holds_or_time_is_up(finished: bool, secs: u64, nanos: u32)
    ensures
        (next(WaitState::Checking, (WaitEvent::Checked { finished, secs, nanos })) == Some(
            (WaitState::Finished, WaitAction::Finish),
        )) <==> finished || (secs == 0 && nanos == 0),
{
}

/// A clock gives less than a second in nanoseconds.
pub proof fn law_times_of_a_clock(finished: bool, secs: u64, nanos: u32)
    ensures
        valid_event(WaitEvent::Checked { finished, secs, nanos }) <==> nanos <= 999_999_999,
        valid_state(WaitState::Preparing { secs, nanos }) <==> nanos <= 999_999_999,
{
}

/// What is said of a wait that failed names what did.
pub proof fn law_failed_wait_is_told()
    ensures
        failure_of(WaitError::Flush) == "Error flushing pending outgoing events"@,
        failure_of(WaitError::Read) == "Error reading Wayland events"@,
        failure_of(WaitError::Poll) == "Error in Wayland poll"@,
        failure_of(WaitError::Dispatch) == "Error in dispatch_pending"@,
        failure_of(WaitError::DispatchAfterRead) == "Error in dispatch_pending after reading"@,
{
}

} // verus!
