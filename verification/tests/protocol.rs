use vorarbeiter::{Action, Event, ExitStatus, ShutdownError, ShutdownProtocol};

#[test]
fn graceful_exit_returns_status() {
    // A process that exits voluntarily within the grace period: the
    // protocol returns its true exit status and never asks for the
    // forced signal.
    let mut protocol = ShutdownProtocol::new(1000, 100);
    assert_eq!(protocol.next_action(), Action::SendGraceful);
    protocol.step(Event::SignalOk);
    assert_eq!(protocol.next_action(), Action::PollExit);
    protocol.step(Event::PollRunning);
    assert_eq!(protocol.next_action(), Action::SleepPollInterval);
    protocol.step(Event::Slept);
    assert_eq!(protocol.next_action(), Action::PollExit);
    protocol.step(Event::PollExited(ExitStatus::Code(0)));
    assert_eq!(protocol.next_action(), Action::Finished);
    assert_eq!(protocol.outcome(), Some(Ok(ExitStatus::Code(0))));
}

#[test]
fn immediate_exit_on_first_poll() {
    let mut protocol = ShutdownProtocol::new(500, 100);
    protocol.step(Event::SignalOk);
    assert_eq!(protocol.next_action(), Action::PollExit);
    protocol.step(Event::PollExited(ExitStatus::Code(7)));
    assert_eq!(protocol.outcome(), Some(Ok(ExitStatus::Code(7))));
}

#[test]
fn zero_timeout_forces_without_polling() {
    // kill_timeout of zero: the grace window is empty, so the forced
    // signal goes out right after the graceful one, with no poll and no
    // sleep in between.
    let mut protocol = ShutdownProtocol::new(0, 50);
    assert_eq!(protocol.next_action(), Action::SendGraceful);
    protocol.step(Event::SignalOk);
    assert_eq!(protocol.next_action(), Action::SendForced);
    protocol.step(Event::SignalOk);
    assert_eq!(protocol.next_action(), Action::WaitExit);
    protocol.step(Event::WaitDone(ExitStatus::Signal(9)));
    assert_eq!(protocol.outcome(), Some(Ok(ExitStatus::Signal(9))));
}

#[test]
fn forced_signal_within_one_interval_of_timeout() {
    // A process that ignores the graceful signal: with a timeout of 100
    // ms and polls every 30 ms, polls run at 0, 30, 60 and 90 ms of
    // accumulated grace; at 120 ms the window is over. The forced signal
    // is ordered no earlier than the timeout and less than one poll
    // interval past it.
    let mut protocol = ShutdownProtocol::new(100, 30);
    protocol.step(Event::SignalOk);
    let mut sleeps: u64 = 0;
    loop {
        match protocol.next_action() {
            Action::PollExit => protocol.step(Event::PollRunning),
            Action::SleepPollInterval => {
                sleeps += 1;
                protocol.step(Event::Slept);
            }
            Action::SendForced => break,
            other => panic!("unexpected action {:?}", other),
        }
    }
    let elapsed = sleeps * 30;
    assert_eq!(sleeps, 4);
    assert!(elapsed >= 100);
    assert!(elapsed < 100 + 30);
    protocol.step(Event::SignalOk);
    assert_eq!(protocol.next_action(), Action::WaitExit);
    protocol.step(Event::WaitDone(ExitStatus::Signal(9)));
    assert_eq!(protocol.outcome(), Some(Ok(ExitStatus::Signal(9))));
}

#[test]
fn sleeping_process_scenario() {
    // The protocol run against a process that would sleep for an hour,
    // with kill_timeout 200 ms and poll_interval 50 ms: the process never
    // exits on its own, four polls and four sleeps pass (200 ms of
    // grace), then the forced signal; total simulated wall time is
    // between 200 and 250 ms, and the result reports termination by the
    // forced signal, not a voluntary exit.
    let mut protocol = ShutdownProtocol::new(200, 50);
    protocol.step(Event::SignalOk);
    let mut polls: u32 = 0;
    let mut slept_ms: u64 = 0;
    loop {
        match protocol.next_action() {
            Action::PollExit => {
                polls += 1;
                protocol.step(Event::PollRunning);
            }
            Action::SleepPollInterval => {
                slept_ms += 50;
                protocol.step(Event::Slept);
            }
            Action::SendForced => break,
            other => panic!("unexpected action {:?}", other),
        }
    }
    assert_eq!(polls, 4);
    assert!(slept_ms >= 200 && slept_ms < 250);
    protocol.step(Event::SignalOk);
    protocol.step(Event::WaitDone(ExitStatus::Signal(9)));
    let outcome = protocol.outcome().expect("protocol must be finished");
    assert_eq!(outcome, Ok(ExitStatus::Signal(9)));
    assert!(!matches!(outcome, Ok(ExitStatus::Code(_))));
}

#[test]
fn graceful_signal_error_aborts() {
    // The OS cannot locate or signal the process: fail immediately, no
    // further states are entered. 3 is the OS code for a missing
    // process.
    let mut protocol = ShutdownProtocol::new(1000, 100);
    protocol.step(Event::SignalErr(3));
    assert_eq!(protocol.next_action(), Action::Finished);
    assert_eq!(protocol.outcome(), Some(Err(ShutdownError::Signal(3))));
}

#[test]
fn poll_error_aborts() {
    let mut protocol = ShutdownProtocol::new(1000, 100);
    protocol.step(Event::SignalOk);
    protocol.step(Event::PollErr(5));
    assert_eq!(protocol.outcome(), Some(Err(ShutdownError::Wait(5))));
}

#[test]
fn forced_signal_error_surfaces() {
    let mut protocol = ShutdownProtocol::new(0, 100);
    protocol.step(Event::SignalOk);
    assert_eq!(protocol.next_action(), Action::SendForced);
    protocol.step(Event::SignalErr(1));
    assert_eq!(protocol.outcome(), Some(Err(ShutdownError::Signal(1))));
}

#[test]
fn wait_error_surfaces() {
    let mut protocol = ShutdownProtocol::new(0, 100);
    protocol.step(Event::SignalOk);
    protocol.step(Event::SignalOk);
    assert_eq!(protocol.next_action(), Action::WaitExit);
    protocol.step(Event::WaitErr(7));
    assert_eq!(protocol.outcome(), Some(Err(ShutdownError::Wait(7))));
}

#[test]
fn outcome_is_none_while_running() {
    let mut protocol = ShutdownProtocol::new(1000, 100);
    assert_eq!(protocol.outcome(), None);
    protocol.step(Event::SignalOk);
    assert_eq!(protocol.outcome(), None);
    protocol.step(Event::PollRunning);
    assert_eq!(protocol.outcome(), None);
}
