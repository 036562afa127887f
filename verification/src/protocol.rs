//! The per-process shutdown protocol, as a state machine.
//!
//! The protocol escalates from a graceful termination request to a forced
//! kill after a bounded grace period. This module holds the decision
//! logic only: every transition is a function of the current state and of
//! an [`Event`] reported by a driver, and [`ShutdownProtocol::next_action`]
//! tells the driver what to do next (send a signal, poll, sleep, wait).
//! The driver performs those actions against the operating system and
//! feeds the outcome back through [`ShutdownProtocol::step`].
//!
//! Time is modelled as the accumulated sleeping time in milliseconds: the
//! driver sleeps `poll_interval_ms` between polls, so after `k` sleeps the
//! protocol has granted the process `k * poll_interval_ms` milliseconds of
//! grace. The forced kill is ordered at the first poll opportunity at
//! which the accumulated grace reaches `kill_timeout_ms`.

use vstd::prelude::*;
use vstd::arithmetic::mul::{
    lemma_mul_inequality, lemma_mul_is_distributive_add_other_way, lemma_mul_nonnegative,
};

verus! {

/// How a process ended: a normal exit with a code, or termination by a
/// signal (the payload is the signal number).
#[derive(Clone, Copy, Debug, PartialEq, Eq, Structural)]
pub enum ExitStatus {
    Code(i32),
    Signal(i32),
}

/// Why a single shutdown attempt failed. The payload is the OS error code
/// reported by the driver.
#[derive(Clone, Copy, Debug, PartialEq, Eq, Structural)]
pub enum ShutdownError {
    /// The OS refused or failed a termination or kill request.
    Signal(i32),
    /// Failure while observing or collecting the exit status.
    Wait(i32),
}

/// What the driver must do next on behalf of the protocol.
#[derive(Clone, Copy, Debug, PartialEq, Eq, Structural)]
pub enum Action {
    /// Send the graceful termination signal (SIGTERM).
    SendGraceful,
    /// Poll the process for exit, without blocking.
    PollExit,
    /// Sleep for `poll_interval_ms` milliseconds.
    SleepPollInterval,
    /// Send the forced termination signal (SIGKILL).
    SendForced,
    /// Wait for the process to exit, blocking.
    WaitExit,
    /// The protocol is complete; the outcome is available.
    Finished,
}

/// What the driver observed when carrying out the requested action.
#[derive(Clone, Copy, Debug, PartialEq, Eq, Structural)]
pub enum Event {
    /// A signal was delivered successfully.
    SignalOk,
    /// The OS refused the signal (payload: OS error code).
    SignalErr(i32),
    /// The non-blocking poll found the process still running.
    PollRunning,
    /// The non-blocking poll found the process exited.
    PollExited(ExitStatus),
    /// The non-blocking poll itself failed (payload: OS error code).
    PollErr(i32),
    /// The driver slept for one poll interval.
    Slept,
    /// The blocking wait collected the exit status.
    WaitDone(ExitStatus),
    /// The blocking wait failed (payload: OS error code).
    WaitErr(i32),
}

/// Where the protocol stands.
#[derive(Clone, Copy, Debug)]
pub enum Phase {
    /// The graceful termination request is about to be sent.
    Requested,
    /// The graceful request went out; the process has been granted
    /// `elapsed_ms` milliseconds of grace so far.
    Waiting { elapsed_ms: u64 },
    /// The last poll found the process still running; one poll interval of
    /// sleep is owed before the next check.
    Sleeping { elapsed_ms: u64 },
    /// The grace period ran out and the forced kill was delivered; the
    /// process must now be reaped with a blocking wait.
    Forced,
    /// The protocol is over.
    Done { outcome: Result<ExitStatus, ShutdownError> },
}

/// The shutdown protocol for one process.
#[derive(Clone, Copy, Debug)]
pub struct ShutdownProtocol {
    /// Grace period granted after the graceful request, in milliseconds.
    pub kill_timeout_ms: u64,
    /// Sleeping time between two polls, in milliseconds.
    pub poll_interval_ms: u64,
    /// Current state.
    pub phase: Phase,
}

impl ShutdownProtocol {
    /// Well-formedness: the poll interval is positive, the bookkeeping
    /// cannot overflow, and the accumulated grace stays within one poll
    /// interval of the timeout.
    pub open spec fn wf(self) -> bool {
        &&& self.poll_interval_ms >= 1
        &&& self.kill_timeout_ms + self.poll_interval_ms <= u64::MAX
        &&& match self.phase {
            Phase::Waiting { elapsed_ms } => elapsed_ms <= self.kill_timeout_ms + self.poll_interval_ms,
            Phase::Sleeping { elapsed_ms } => elapsed_ms < self.kill_timeout_ms,
            _ => true,
        }
    }

    /// The action owed in the current state.
    pub open spec fn action(self) -> Action {
        match self.phase {
            Phase::Requested => Action::SendGraceful,
            Phase::Waiting { elapsed_ms } => if elapsed_ms < self.kill_timeout_ms {
                Action::PollExit
            } else {
                Action::SendForced
            },
            Phase::Sleeping { .. } => Action::SleepPollInterval,
            Phase::Forced => Action::WaitExit,
            Phase::Done { .. } => Action::Finished,
        }
    }

    /// The phase after observing `event`. Events that the current action
    /// cannot produce leave the phase unchanged; [`Self::step`] excludes
    /// them by precondition.
    pub open spec fn step_phase(self, event: Event) -> Phase {
        match self.phase {
            Phase::Requested => match event {
                Event::SignalOk => Phase::Waiting { elapsed_ms: 0 },
                Event::SignalErr(code) => Phase::Done { outcome: Err(ShutdownError::Signal(code)) },
                _ => self.phase,
            },
            Phase::Waiting { elapsed_ms } => if elapsed_ms < self.kill_timeout_ms {
                match event {
                    Event::PollExited(status) => Phase::Done { outcome: Ok(status) },
                    Event::PollRunning => Phase::Sleeping { elapsed_ms },
                    Event::PollErr(code) => Phase::Done { outcome: Err(ShutdownError::Wait(code)) },
                    _ => self.phase,
                }
            } else {
                match event {
                    Event::SignalOk => Phase::Forced,
                    Event::SignalErr(code) => Phase::Done {
                        outcome: Err(ShutdownError::Signal(code)),
                    },
                    _ => self.phase,
                }
            },
            Phase::Sleeping { elapsed_ms } => match event {
                Event::Slept => Phase::Waiting {
                    elapsed_ms: (elapsed_ms + self.poll_interval_ms) as u64,
                },
                _ => self.phase,
            },
            Phase::Forced => match event {
                Event::WaitDone(status) => Phase::Done { outcome: Ok(status) },
                Event::WaitErr(code) => Phase::Done { outcome: Err(ShutdownError::Wait(code)) },
                _ => self.phase,
            },
            Phase::Done { .. } => self.phase,
        }
    }

    /// The whole protocol value after observing `event`.
    pub open spec fn step_spec(self, event: Event) -> ShutdownProtocol {
        ShutdownProtocol { phase: self.step_phase(event), ..self }
    }

    /// The outcome, once the protocol is done.
    pub open spec fn outcome_spec(self) -> Option<Result<ExitStatus, ShutdownError>> {
        match self.phase {
            Phase::Done { outcome } => Some(outcome),
            _ => None,
        }
    }

    /// Start the protocol for one process: the graceful request is owed
    /// first, and no grace has been granted yet.
    pub fn new(kill_timeout_ms: u64, poll_interval_ms: u64) -> (protocol: Self)
        requires
            poll_interval_ms >= 1,
            kill_timeout_ms + poll_interval_ms <= u64::MAX,
        ensures
            protocol.wf(),
            protocol.kill_timeout_ms == kill_timeout_ms,
            protocol.poll_interval_ms == poll_interval_ms,
            protocol.phase is Requested,
    {
        ShutdownProtocol { kill_timeout_ms, poll_interval_ms, phase: Phase::Requested }
    }

    /// Tell the driver what to do next.
    pub fn next_action(&self) -> (action: Action)
        ensures
            action == self.action(),
    {
        match self.phase {
            Phase::Requested => Action::SendGraceful,
            Phase::Waiting { elapsed_ms } => if elapsed_ms < self.kill_timeout_ms {
                Action::PollExit
            } else {
                Action::SendForced
            },
            Phase::Sleeping { .. } => Action::SleepPollInterval,
            Phase::Forced => Action::WaitExit,
            Phase::Done { .. } => Action::Finished,
        }
    }

    /// Record what the driver observed and move to the next state.
    pub fn step(&mut self, event: Event)
        requires
            old(self).wf(),
            event_allowed(old(self).action(), event),
        ensures
            final(self).wf(),
            *final(self) == old(self).step_spec(event),
    {
        let next: Phase = match self.phase {
            Phase::Requested => match event {
                Event::SignalOk => Phase::Waiting { elapsed_ms: 0 },
                Event::SignalErr(code) => Phase::Done { outcome: Err(ShutdownError::Signal(code)) },
                _ => self.phase,
            },
            Phase::Waiting { elapsed_ms } => if elapsed_ms < self.kill_timeout_ms {
                match event {
                    Event::PollExited(status) => Phase::Done { outcome: Ok(status) },
                    Event::PollRunning => Phase::Sleeping { elapsed_ms },
                    Event::PollErr(code) => Phase::Done { outcome: Err(ShutdownError::Wait(code)) },
                    _ => self.phase,
                }
            } else {
                match event {
                    Event::SignalOk => Phase::Forced,
                    Event::SignalErr(code) => Phase::Done {
                        outcome: Err(ShutdownError::Signal(code)),
                    },
                    _ => self.phase,
                }
            },
            Phase::Sleeping { elapsed_ms } => match event {
                Event::Slept => Phase::Waiting { elapsed_ms: elapsed_ms + self.poll_interval_ms },
                _ => self.phase,
            },
            Phase::Forced => match event {
                Event::WaitDone(status) => Phase::Done { outcome: Ok(status) },
                Event::WaitErr(code) => Phase::Done { outcome: Err(ShutdownError::Wait(code)) },
                _ => self.phase,
            },
            Phase::Done { .. } => self.phase,
        };
        self.phase = next;
    }

    /// The outcome of the protocol, once it is finished; `None` while it
    /// is still in progress.
    pub fn outcome(&self) -> (outcome: Option<Result<ExitStatus, ShutdownError>>)
        ensures
            outcome == self.outcome_spec(),
    {
        match self.phase {
            Phase::Done { outcome } => Some(outcome),
            _ => None,
        }
    }
}

/// Which events the driver may report for a given requested action.
pub open spec fn event_allowed(action: Action, event: Event) -> bool {
    match action {
        Action::SendGraceful | Action::SendForced => event is SignalOk || event is SignalErr,
        Action::PollExit => event is PollRunning || event is PollExited || event is PollErr,
        Action::SleepPollInterval => event is Slept,
        Action::WaitExit => event is WaitDone || event is WaitErr,
        Action::Finished => false,
    }
}

/// The protocol as it starts for one process.
pub open spec fn initial(kill_timeout_ms: u64, poll_interval_ms: u64) -> ShutdownProtocol {
    ShutdownProtocol { kill_timeout_ms, poll_interval_ms, phase: Phase::Requested }
}

/// A well-formed protocol stays well-formed under any admissible event.
pub proof fn lemma_step_spec_preserves_wf(p: ShutdownProtocol, event: Event)
    requires
        p.wf(),
        event_allowed(p.action(), event),
    ensures
        p.step_spec(event).wf(),
{
}

/// The protocol after observing a whole sequence of events.
pub open spec fn run(p: ShutdownProtocol, events: Seq<Event>) -> ShutdownProtocol
    decreases events.len(),
{
    if events.len() == 0 {
        p
    } else {
        run(p.step_spec(events[0]), events.drop_first())
    }
}

/// Whether every event in the sequence answers the action owed at the
/// state where it is observed.
pub open spec fn run_allowed(p: ShutdownProtocol, events: Seq<Event>) -> bool
    decreases events.len(),
{
    events.len() == 0 || (event_allowed(p.action(), events[0]) && run_allowed(
        p.step_spec(events[0]),
        events.drop_first(),
    ))
}

/// The actions the driver performs along a run, in order: the action owed
/// at each state that an event is observed in.
pub open spec fn run_actions(p: ShutdownProtocol, events: Seq<Event>) -> Seq<Action>
    decreases events.len(),
{
    if events.len() == 0 {
        Seq::empty()
    } else {
        seq![p.action()] + run_actions(p.step_spec(events[0]), events.drop_first())
    }
}

/// `k` rounds of "still running, sleep one interval".
pub open spec fn running_cycles(k: nat) -> Seq<Event>
    decreases k,
{
    if k == 0 {
        Seq::empty()
    } else {
        seq![Event::PollRunning, Event::Slept] + running_cycles((k - 1) as nat)
    }
}

/// The actions those rounds cost the driver: poll, then sleep, `k` times.
pub open spec fn cycle_actions(k: nat) -> Seq<Action>
    decreases k,
{
    if k == 0 {
        Seq::empty()
    } else {
        seq![Action::PollExit, Action::SleepPollInterval] + cycle_actions((k - 1) as nat)
    }
}

/// Runs compose: observing `s1 + s2` is observing `s1`, then `s2` from
/// where `s1` left off; likewise for the recorded actions and for
/// admissibility.
pub proof fn lemma_run_append(p: ShutdownProtocol, s1: Seq<Event>, s2: Seq<Event>)
    ensures
        run(p, s1 + s2) == run(run(p, s1), s2),
        run_actions(p, s1 + s2) == run_actions(p, s1) + run_actions(run(p, s1), s2),
        run_allowed(p, s1 + s2) <==> (run_allowed(p, s1) && run_allowed(run(p, s1), s2)),
    decreases s1.len(),
{
    if s1.len() == 0 {
        assert(s1 + s2 =~= s2);
        assert(run_actions(p, s1) + run_actions(run(p, s1), s2) =~= run_actions(p, s2));
    } else {
        let p1 = p.step_spec(s1[0]);
        assert((s1 + s2)[0] == s1[0]);
        assert((s1 + s2).drop_first() =~= s1.drop_first() + s2);
        lemma_run_append(p1, s1.drop_first(), s2);
        assert(run_actions(p, s1 + s2) =~= run_actions(p, s1) + run_actions(run(p, s1), s2));
    }
}

/// Polling and sleeping never involves the forced signal.
pub proof fn lemma_cycle_actions_no_forced(k: nat)
    ensures
        !cycle_actions(k).contains(Action::SendForced),
    decreases k,
{
    if k > 0 {
        lemma_cycle_actions_no_forced((k - 1) as nat);
        let acts = cycle_actions(k);
        let tail = cycle_actions((k - 1) as nat);
        assert forall|i: int| 0 <= i < acts.len() implies acts[i] != Action::SendForced by {
            if i >= 2 {
                assert(acts[i] == tail[i - 2]);
                assert(tail[i - 2] != Action::SendForced);
            }
        }
    }
}

/// While the graceful window is open, `k` rounds of polling and sleeping
/// are admissible, accumulate `k` poll intervals of grace, and never call
/// for the forced signal.
pub proof fn lemma_waiting_cycles(p: ShutdownProtocol, e: u64, k: nat)
    requires
        p.wf(),
        p.phase == (Phase::Waiting { elapsed_ms: e }),
        k >= 1 ==> e + (k - 1) * (p.poll_interval_ms as int) < p.kill_timeout_ms,
    ensures
        run_allowed(p, running_cycles(k)),
        e + k * (p.poll_interval_ms as int) <= p.kill_timeout_ms + p.poll_interval_ms,
        run(p, running_cycles(k)) == (ShutdownProtocol {
            phase: Phase::Waiting { elapsed_ms: (e + k * (p.poll_interval_ms as int)) as u64 },
            ..p
        }),
        run_actions(p, running_cycles(k)) == cycle_actions(k),
    decreases k,
{
    let pi = p.poll_interval_ms as int;
    if k == 0 {
        assert(run(p, running_cycles(0)) == p);
        assert(p == (ShutdownProtocol {
            phase: Phase::Waiting { elapsed_ms: (e + 0 * pi) as u64 },
            ..p
        }));
        assert(run_actions(p, running_cycles(0)) =~= cycle_actions(0));
    } else {
        lemma_mul_nonnegative(k - 1, pi);
        assert(e < p.kill_timeout_ms);
        let p1 = p.step_spec(Event::PollRunning);
        let p2 = p1.step_spec(Event::Slept);
        assert(p2 == (ShutdownProtocol {
            phase: Phase::Waiting { elapsed_ms: (e + pi) as u64 },
            ..p
        }));
        let s2: Seq<Event> = seq![Event::PollRunning, Event::Slept];
        reveal_with_fuel(run, 3);
        reveal_with_fuel(run_actions, 3);
        reveal_with_fuel(run_allowed, 3);
        assert(s2.drop_first() =~= seq![Event::Slept]);
        assert(seq![Event::Slept].drop_first() =~= Seq::<Event>::empty());
        assert(run(p, s2) == p2);
        assert(run_actions(p, s2) =~= seq![Action::PollExit, Action::SleepPollInterval]);
        assert(run_allowed(p, s2));
        // (k - 1) * pi == (k - 2) * pi + 1 * pi, so the remaining rounds
        // still fit in the window.
        lemma_mul_is_distributive_add_other_way(pi, k - 2, 1);
        lemma_waiting_cycles(p2, (e + pi) as u64, (k - 1) as nat);
        assert(running_cycles(k) == s2 + running_cycles((k - 1) as nat));
        lemma_run_append(p, s2, running_cycles((k - 1) as nat));
        // (e + pi) + (k - 1) * pi == e + k * pi.
        lemma_mul_is_distributive_add_other_way(pi, k - 1, 1);
        assert(run(p, running_cycles(k)) == (ShutdownProtocol {
            phase: Phase::Waiting { elapsed_ms: (e + k * pi) as u64 },
            ..p
        }));
        assert(run_actions(p, running_cycles(k)) =~= cycle_actions(k));
    }
}

/// A process that exits voluntarily while the graceful window is still
/// open: if the `k`-th poll (after `k` sleeps, so with accumulated grace
/// `k * poll_interval_ms` still below `kill_timeout_ms`) finds the
/// process exited with `status`, the protocol finishes with exactly that
/// status as its success outcome, and the forced signal is never sent at
/// any point of the run.
pub proof fn lemma_graceful_exit_within_timeout(
    kill_timeout_ms: u64,
    poll_interval_ms: u64,
    k: nat,
    status: ExitStatus,
)
    requires
        poll_interval_ms >= 1,
        kill_timeout_ms + poll_interval_ms <= u64::MAX,
        k * (poll_interval_ms as int) < kill_timeout_ms,
    ensures
        ({
            let p = initial(kill_timeout_ms, poll_interval_ms);
            let events = seq![Event::SignalOk] + running_cycles(k) + seq![
                Event::PollExited(status),
            ];
            &&& run_allowed(p, events)
            &&& run(p, events).phase == (Phase::Done { outcome: Ok(status) })
            &&& run_actions(p, events) == seq![Action::SendGraceful] + cycle_actions(k) + seq![
                Action::PollExit,
            ]
            &&& !run_actions(p, events).contains(Action::SendForced)
        }),
{
    let pi = poll_interval_ms as int;
    let p = initial(kill_timeout_ms, poll_interval_ms);
    let s1: Seq<Event> = seq![Event::SignalOk];
    let s3: Seq<Event> = seq![Event::PollExited(status)];
    let events = s1 + running_cycles(k) + s3;
    let p1 = p.step_spec(Event::SignalOk);
    reveal_with_fuel(run, 2);
    reveal_with_fuel(run_actions, 2);
    reveal_with_fuel(run_allowed, 2);
    assert(s1.drop_first() =~= Seq::<Event>::empty());
    assert(run(p, s1) == p1);
    assert(run_actions(p, s1) =~= seq![Action::SendGraceful]);
    lemma_mul_nonnegative(k as int, pi);
    if k >= 1 {
        lemma_mul_inequality(k - 1, k as int, pi);
    }
    lemma_waiting_cycles(p1, 0, k);
    lemma_run_append(p, s1, running_cycles(k));
    let p2 = run(p, s1 + running_cycles(k));
    assert(p2.phase == (Phase::Waiting { elapsed_ms: (k * pi) as u64 }));
    assert(s3.drop_first() =~= Seq::<Event>::empty());
    assert(run(p2, s3).phase == (Phase::Done { outcome: Ok(status) }));
    assert(run_actions(p2, s3) =~= seq![Action::PollExit]);
    lemma_run_append(p, s1 + running_cycles(k), s3);
    let acts = run_actions(p, events);
    assert(acts == seq![Action::SendGraceful] + cycle_actions(k) + seq![Action::PollExit]);
    lemma_cycle_actions_no_forced(k);
    assert forall|i: int| 0 <= i < acts.len() implies acts[i] != Action::SendForced by {
        let head = seq![Action::SendGraceful] + cycle_actions(k);
        if i < head.len() {
            if i >= 1 {
                assert(head[i] == cycle_actions(k)[i - 1]);
                assert(cycle_actions(k)[i - 1] != Action::SendForced);
            }
        }
    }
}

/// A process that ignores the graceful signal: once the accumulated grace
/// reaches `kill_timeout_ms` — which happens with `kill_timeout_ms <=
/// k * poll_interval_ms < kill_timeout_ms + poll_interval_ms`, so no
/// earlier than the timeout and less than one poll interval past it — the
/// protocol orders the forced signal, and once the blocking wait collects
/// `status`, finishes successfully with it.
pub proof fn lemma_ignored_graceful_forces(
    kill_timeout_ms: u64,
    poll_interval_ms: u64,
    k: nat,
    status: ExitStatus,
)
    requires
        poll_interval_ms >= 1,
        kill_timeout_ms + poll_interval_ms <= u64::MAX,
        k * (poll_interval_ms as int) >= kill_timeout_ms,
        k >= 1 ==> (k - 1) * (poll_interval_ms as int) < kill_timeout_ms,
        k == 0 ==> kill_timeout_ms == 0,
    ensures
        ({
            let p = initial(kill_timeout_ms, poll_interval_ms);
            let events = seq![Event::SignalOk] + running_cycles(k) + seq![
                Event::SignalOk,
                Event::WaitDone(status),
            ];
            &&& run_allowed(p, events)
            &&& run(p, events).phase == (Phase::Done { outcome: Ok(status) })
            &&& run_actions(p, events) == seq![Action::SendGraceful] + cycle_actions(k) + seq![
                Action::SendForced,
                Action::WaitExit,
            ]
            &&& kill_timeout_ms <= k * (poll_interval_ms as int) < kill_timeout_ms
                + poll_interval_ms
        }),
{
    let pi = poll_interval_ms as int;
    let p = initial(kill_timeout_ms, poll_interval_ms);
    let s1: Seq<Event> = seq![Event::SignalOk];
    let s3: Seq<Event> = seq![Event::SignalOk, Event::WaitDone(status)];
    let events = s1 + running_cycles(k) + s3;
    let p1 = p.step_spec(Event::SignalOk);
    reveal_with_fuel(run, 3);
    reveal_with_fuel(run_actions, 3);
    reveal_with_fuel(run_allowed, 3);
    assert(s1.drop_first() =~= Seq::<Event>::empty());
    assert(run(p, s1) == p1);
    assert(run_actions(p, s1) =~= seq![Action::SendGraceful]);
    if k >= 1 {
        lemma_mul_is_distributive_add_other_way(pi, k - 1, 1);
    }
    lemma_waiting_cycles(p1, 0, k);
    lemma_run_append(p, s1, running_cycles(k));
    let p2 = run(p, s1 + running_cycles(k));
    assert(p2.phase == (Phase::Waiting { elapsed_ms: (k * pi) as u64 }));
    assert(p2.action() == Action::SendForced);
    let p3 = p2.step_spec(Event::SignalOk);
    assert(p3.phase == Phase::Forced);
    assert(s3.drop_first() =~= seq![Event::WaitDone(status)]);
    assert(seq![Event::WaitDone(status)].drop_first() =~= Seq::<Event>::empty());
    assert(run(p2, s3).phase == (Phase::Done { outcome: Ok(status) }));
    assert(run_actions(p2, s3) =~= seq![Action::SendForced, Action::WaitExit]);
    lemma_run_append(p, s1 + running_cycles(k), s3);
    assert(run_actions(p, events) == seq![Action::SendGraceful] + cycle_actions(k) + seq![
        Action::SendForced,
        Action::WaitExit,
    ]);
}

/// With a zero `kill_timeout`, the protocol sends the forced signal right
/// after the graceful one: no poll and no sleep ever happens.
pub proof fn lemma_zero_timeout_forces_immediately(poll_interval_ms: u64, status: ExitStatus)
    requires
        poll_interval_ms >= 1,
    ensures
        ({
            let p = initial(0, poll_interval_ms);
            let events = seq![Event::SignalOk, Event::SignalOk, Event::WaitDone(status)];
            &&& run_allowed(p, events)
            &&& run(p, events).phase == (Phase::Done { outcome: Ok(status) })
            &&& run_actions(p, events) == seq![
                Action::SendGraceful,
                Action::SendForced,
                Action::WaitExit,
            ]
        }),
{
    let p = initial(0, poll_interval_ms);
    let events: Seq<Event> = seq![Event::SignalOk, Event::SignalOk, Event::WaitDone(status)];
    reveal_with_fuel(run, 4);
    reveal_with_fuel(run_actions, 4);
    reveal_with_fuel(run_allowed, 4);
    let p1 = p.step_spec(Event::SignalOk);
    let p2 = p1.step_spec(Event::SignalOk);
    assert(p1.phase == (Phase::Waiting { elapsed_ms: 0 }));
    assert(p1.action() == Action::SendForced);
    assert(events.drop_first() =~= seq![Event::SignalOk, Event::WaitDone(status)]);
    assert(seq![Event::SignalOk, Event::WaitDone(status)].drop_first() =~= seq![
        Event::WaitDone(status),
    ]);
    assert(seq![Event::WaitDone(status)].drop_first() =~= Seq::<Event>::empty());
    assert(run(p, events).phase == (Phase::Done { outcome: Ok(status) }));
    assert(run_actions(p, events) =~= seq![
        Action::SendGraceful,
        Action::SendForced,
        Action::WaitExit,
    ]);
}

} // verus!
