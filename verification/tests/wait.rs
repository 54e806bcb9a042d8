use waywall::app::wait::{
    failure_text, PollOutcome, ReadOutcome, Wait, WaitAction, WaitError, WaitEvent,
};

fn checked(finished: bool, secs: u64, nanos: u32) -> WaitEvent {
    WaitEvent::Checked { finished, secs, nanos }
}

/// A wait that was told to poll, after a check with that time left.
fn polling(secs: u64, nanos: u32) -> (Wait, WaitAction) {
    let (mut w, first) = Wait::start();
    assert_eq!(first, WaitAction::Flush);
    let mut step = |e| w.wait_for_wayland_events_state(e).unwrap();
    assert_eq!(step(WaitEvent::Flushed(true)), WaitAction::Check);
    assert_eq!(step(checked(false, secs, nanos)), WaitAction::PrepareRead);
    let action = step(WaitEvent::Prepared(true));
    (w, action)
}

#[test]
fn polls_last_as_long_as_there_is_time() {
    assert_eq!(polling(1, 999_999_999).1, WaitAction::Poll(1999));
    assert_eq!(polling(0, 999_999).1, WaitAction::Poll(0));
    assert_eq!(polling(2_147_483, 647_000_000).1, WaitAction::Poll(i32::MAX));
    assert_eq!(polling(2_147_483, 648_000_000).1, WaitAction::Poll(i32::MAX));
    assert_eq!(polling(u64::MAX, 0).1, WaitAction::Poll(i32::MAX));
}

#[test]
fn events_are_read_only_where_there_are_some() {
    let readable = |bits| {
        let (mut w, _) = polling(2, 0);
        w.wait_for_wayland_events_state(WaitEvent::Polled(PollOutcome::Ready(1, bits))).unwrap()
    };
    assert_eq!(readable(Some(0x1)), WaitAction::Read);
    assert_eq!(readable(Some(0x11)), WaitAction::Read);
    assert_eq!(readable(Some(0x10)), WaitAction::Dispatch);
    assert_eq!(readable(Some(0)), WaitAction::Dispatch);
    assert_eq!(readable(None), WaitAction::Dispatch);
}

#[test]
fn a_round_without_failures() {
    let (mut w, _) = polling(2, 0);
    let mut step = |e| w.wait_for_wayland_events_state(e);
    assert_eq!(step(WaitEvent::Polled(PollOutcome::Ready(1, Some(1)))), Some(WaitAction::Read));
    assert_eq!(step(WaitEvent::WasRead(ReadOutcome::WouldBlock)), Some(WaitAction::Dispatch));
    assert_eq!(step(WaitEvent::Flushed(true)), None);
    assert_eq!(step(WaitEvent::Dispatched(true)), Some(WaitAction::Check));
    assert_eq!(step(checked(true, 1, 0)), Some(WaitAction::Finish));
    assert_eq!(step(checked(true, 1, 0)), None);
}

#[test]
fn signals_and_timeouts_lead_back_to_the_check() {
    for outcome in [PollOutcome::Ready(0, Some(0)), PollOutcome::Interrupted] {
        let (mut w, _) = polling(0, 5_000_000);
        assert_eq!(
            w.wait_for_wayland_events_state(WaitEvent::Polled(outcome)),
            Some(WaitAction::Check)
        );
        assert_eq!(w.wait_for_wayland_events_state(checked(false, 0, 0)), Some(WaitAction::Finish));
    }
}

#[test]
fn queued_events_are_dispatched_first() {
    let (mut w, _) = Wait::start();
    let mut step = |e| w.wait_for_wayland_events_state(e).unwrap();
    step(WaitEvent::Flushed(true));
    step(checked(false, 1, 0));
    assert_eq!(step(WaitEvent::Prepared(false)), WaitAction::Dispatch);
    assert_eq!(step(WaitEvent::Dispatched(false)), WaitAction::Fail(WaitError::Dispatch));
}

#[test]
fn failures_of_a_wait() {
    let (mut w, _) = Wait::start();
    assert_eq!(
        w.wait_for_wayland_events_state(WaitEvent::Flushed(false)),
        Some(WaitAction::Fail(WaitError::Flush))
    );
    let (mut w, _) = polling(1, 0);
    assert_eq!(
        w.wait_for_wayland_events_state(WaitEvent::Polled(PollOutcome::Failed)),
        Some(WaitAction::Fail(WaitError::Poll))
    );
    let (mut w, _) = polling(1, 0);
    w.wait_for_wayland_events_state(WaitEvent::Polled(PollOutcome::Ready(1, Some(1))));
    assert_eq!(
        w.wait_for_wayland_events_state(WaitEvent::WasRead(ReadOutcome::Failed)),
        Some(WaitAction::Fail(WaitError::Read))
    );
    let (mut w, _) = polling(1, 0);
    w.wait_for_wayland_events_state(WaitEvent::Polled(PollOutcome::Ready(1, Some(0))));
    assert_eq!(
        w.wait_for_wayland_events_state(WaitEvent::Dispatched(false)),
        Some(WaitAction::Fail(WaitError::DispatchAfterRead))
    );
    assert_eq!(failure_text(WaitError::DispatchAfterRead), "Error in dispatch_pending after reading");
}
