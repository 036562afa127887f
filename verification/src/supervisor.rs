//! Ownership of process handles and their ordered, best-effort teardown.
//!
//! A [`Supervisor`] owns an ordered collection of process handles
//! (registration order preserved) together with the two durations the
//! shutdown protocol needs. On teardown every owned handle is shut down
//! in strict reverse registration order, one child fully finished before
//! the next begins, and per-child failures are discarded so that one
//! misbehaving child never prevents attempts on the rest.
//!
//! The handles themselves are opaque to this module: the supervisor is
//! generic over the handle type, and [`Teardown`] — the machine that
//! sequences the whole teardown — addresses children by their
//! registration index. A driver holds the real handles, asks the machine
//! which child is current and which action it owes, performs it, and
//! reports the outcome back as an event.

use vstd::prelude::*;

use crate::protocol;
use crate::protocol::{event_allowed, Action, Event, ShutdownProtocol};

verus! {

/// A supervisor for child processes.
pub struct Supervisor<T> {
    /// Supervised child process handles, in registration order.
    pub children: Vec<T>,
    /// Grace period between the graceful request and the forced kill, in
    /// milliseconds.
    pub kill_timeout_ms: u64,
    /// Time between two checks whether a process has exited, in
    /// milliseconds.
    pub poll_interval_ms: u64,
}

impl<T> Supervisor<T> {
    /// Well-formedness: the timeouts fit the shutdown protocol.
    pub open spec fn wf(self) -> bool {
        &&& self.poll_interval_ms >= 1
        &&& self.kill_timeout_ms + self.poll_interval_ms <= u64::MAX
    }

    /// Create a new supervisor with the given kill timeout. The poll
    /// interval is fixed at 100 milliseconds and is deliberately not
    /// configurable here.
    pub fn new(kill_timeout_ms: u64) -> (supervisor: Self)
        requires
            kill_timeout_ms <= u64::MAX - 100,
        ensures
            supervisor.wf(),
            supervisor.children@.len() == 0,
            supervisor.kill_timeout_ms == kill_timeout_ms,
            supervisor.poll_interval_ms == 100,
    {
        Supervisor { children: Vec::new(), kill_timeout_ms, poll_interval_ms: 100 }
    }

    /// Add a child process handle to the supervisor. Registration order
    /// is preserved: the new child comes last.
    pub fn add_child(&mut self, child: T)
        ensures
            final(self).children@ == old(self).children@.push(child),
            final(self).kill_timeout_ms == old(self).kill_timeout_ms,
            final(self).poll_interval_ms == old(self).poll_interval_ms,
    {
        self.children.push(child)
    }

    /// The number of children currently owned.
    pub fn child_count(&self) -> (count: usize)
        ensures
            count == self.children@.len(),
    {
        self.children.len()
    }

    /// Begin the teardown: surrender every owned handle, in registration
    /// order, together with a [`Teardown`] machine that will process them
    /// from the last-registered child down to the first.
    pub fn begin_teardown(&mut self) -> (handles_and_teardown: (Vec<T>, Teardown))
        requires
            old(self).wf(),
        ensures
            handles_and_teardown.0@ == old(self).children@,
            handles_and_teardown.1.wf(),
            handles_and_teardown.1.pending == old(self).children@.len(),
            handles_and_teardown.1.kill_timeout_ms == old(self).kill_timeout_ms,
            handles_and_teardown.1.poll_interval_ms == old(self).poll_interval_ms,
            handles_and_teardown.1.current == protocol::initial(
                old(self).kill_timeout_ms,
                old(self).poll_interval_ms,
            ),
            final(self).children@.len() == 0,
            final(self).kill_timeout_ms == old(self).kill_timeout_ms,
            final(self).poll_interval_ms == old(self).poll_interval_ms,
    {
        let mut handles: Vec<T> = Vec::new();
        core::mem::swap(&mut handles, &mut self.children);
        let teardown = Teardown::new(
            handles.len(),
            self.kill_timeout_ms,
            self.poll_interval_ms,
        );
        (handles, teardown)
    }
}

impl<T> Default for Supervisor<T> {
    /// A supervisor with a kill timeout of 10 seconds.
    fn default() -> (supervisor: Self)
        ensures
            supervisor.wf(),
            supervisor.children@.len() == 0,
            supervisor.kill_timeout_ms == 10000,
            supervisor.poll_interval_ms == 100,
    {
        Supervisor::new(10000)
    }
}

/// The teardown of a whole collection of children: the shutdown protocol,
/// run for one child after the other, starting from the last-registered
/// child (index `pending - 1`) and ending with the first (index 0).
///
/// When one child's protocol completes, its outcome — success or error —
/// is discarded and the machine turns to the previous child with a fresh
/// protocol: teardown never stops early and never propagates a failure.
pub struct Teardown {
    /// Grace period handed to each child's shutdown protocol, in
    /// milliseconds.
    pub kill_timeout_ms: u64,
    /// Poll interval handed to each child's shutdown protocol, in
    /// milliseconds.
    pub poll_interval_ms: u64,
    /// Children not yet fully shut down: those with indices `0 ..
    /// pending` in registration order. The current child is `pending - 1`.
    pub pending: usize,
    /// The running shutdown protocol for the current child; meaningful
    /// only while `pending > 0`.
    pub current: ShutdownProtocol,
}

impl Teardown {
    /// Well-formedness: the embedded protocol is well-formed and carries
    /// the teardown's own timeouts.
    pub open spec fn wf(self) -> bool {
        &&& self.poll_interval_ms >= 1
        &&& self.kill_timeout_ms + self.poll_interval_ms <= u64::MAX
        &&& self.current.wf()
        &&& self.current.kill_timeout_ms == self.kill_timeout_ms
        &&& self.current.poll_interval_ms == self.poll_interval_ms
    }

    /// The index of the child now being shut down: always the last
    /// remaining one in registration order; `None` when the teardown is
    /// complete.
    pub open spec fn current_child_spec(self) -> Option<usize> {
        if self.pending > 0 {
            Some((self.pending - 1) as usize)
        } else {
            None
        }
    }

    /// The action owed for the current child, or `Finished` when no child
    /// remains.
    pub open spec fn action_spec(self) -> Action {
        if self.pending > 0 {
            self.current.action()
        } else {
            Action::Finished
        }
    }

    /// The teardown after the driver observes `event` for the current
    /// child. If the event completes that child's protocol, the outcome
    /// is dropped on the floor and the machine turns to the previous
    /// child with a fresh protocol.
    pub open spec fn step_spec(self, event: Event) -> Teardown {
        let inner = self.current.step_spec(event);
        if inner.phase is Done {
            Teardown {
                pending: (self.pending - 1) as usize,
                current: protocol::initial(self.kill_timeout_ms, self.poll_interval_ms),
                ..self
            }
        } else {
            Teardown { current: inner, ..self }
        }
    }

    /// Start a teardown of `children` children.
    pub fn new(children: usize, kill_timeout_ms: u64, poll_interval_ms: u64) -> (teardown: Self)
        requires
            poll_interval_ms >= 1,
            kill_timeout_ms + poll_interval_ms <= u64::MAX,
        ensures
            teardown.wf(),
            teardown.pending == children,
            teardown.kill_timeout_ms == kill_timeout_ms,
            teardown.poll_interval_ms == poll_interval_ms,
            teardown.current == protocol::initial(kill_timeout_ms, poll_interval_ms),
    {
        Teardown {
            kill_timeout_ms,
            poll_interval_ms,
            pending: children,
            current: ShutdownProtocol::new(kill_timeout_ms, poll_interval_ms),
        }
    }

    /// Which child the driver must act on.
    pub fn current_child(&self) -> (child: Option<usize>)
        ensures
            child == self.current_child_spec(),
    {
        if self.pending > 0 {
            Some(self.pending - 1)
        } else {
            None
        }
    }

    /// What the driver must do next for the current child.
    pub fn next_action(&self) -> (action: Action)
        ensures
            action == self.action_spec(),
    {
        if self.pending > 0 {
            self.current.next_action()
        } else {
            Action::Finished
        }
    }

    /// Record what the driver observed for the current child.
    pub fn step(&mut self, event: Event)
        requires
            old(self).wf(),
            old(self).pending > 0,
            event_allowed(old(self).current.action(), event),
        ensures
            final(self).wf(),
            *final(self) == old(self).step_spec(event),
    {
        self.current.step(event);
        let done = match self.current.next_action() {
            Action::Finished => true,
            _ => false,
        };
        if done {
            self.pending = self.pending - 1;
            self.current = ShutdownProtocol::new(self.kill_timeout_ms, self.poll_interval_ms);
        }
    }
}

/// Strictly sequential, reverse-order teardown: a step leaves the current
/// child in place unless that child's shutdown has just completed; once
/// it has, the teardown turns to the immediately preceding child in
/// registration order and starts its shutdown from the very beginning.
pub proof fn lemma_strict_reverse_order(t: Teardown, event: Event)
    requires
        t.wf(),
        t.pending > 0,
        event_allowed(t.current.action(), event),
    ensures
        ({
            let next = t.step_spec(event);
            &&& t.current.step_spec(event).phase is Done ==> {
                &&& next.pending == t.pending - 1
                &&& next.current == protocol::initial(t.kill_timeout_ms, t.poll_interval_ms)
            }
            &&& !(t.current.step_spec(event).phase is Done) ==> {
                &&& next.pending == t.pending
                &&& next.current == t.current.step_spec(event)
            }
        }),
{
}

/// The teardown after observing a whole sequence of events.
pub open spec fn teardown_run(t: Teardown, events: Seq<Event>) -> Teardown
    decreases events.len(),
{
    if events.len() == 0 {
        t
    } else {
        teardown_run(t.step_spec(events[0]), events.drop_first())
    }
}

/// Whether every event of the sequence is observed while a child remains
/// and answers the action owed for it.
pub open spec fn teardown_run_allowed(t: Teardown, events: Seq<Event>) -> bool
    decreases events.len(),
{
    events.len() == 0 || (t.pending > 0 && event_allowed(t.current.action(), events[0])
        && teardown_run_allowed(t.step_spec(events[0]), events.drop_first()))
}

/// Along any admissible teardown run the machine stays well-formed and
/// only makes progress: the set of children still owed a shutdown only
/// shrinks, so a child that has been dealt with is never returned to.
pub proof fn lemma_teardown_run_progress(t: Teardown, events: Seq<Event>)
    requires
        t.wf(),
        teardown_run_allowed(t, events),
    ensures
        teardown_run(t, events).wf(),
        teardown_run(t, events).pending <= t.pending,
    decreases events.len(),
{
    if events.len() > 0 {
        protocol::lemma_step_spec_preserves_wf(t.current, events[0]);
        lemma_teardown_run_progress(t.step_spec(events[0]), events.drop_first());
    }
}

/// The child the teardown is turned to at each step of a run, in order.
pub open spec fn visited_children(t: Teardown, events: Seq<Event>) -> Seq<usize>
    decreases events.len(),
{
    if events.len() == 0 {
        Seq::empty()
    } else {
        seq![(t.pending - 1) as usize] + visited_children(t.step_spec(events[0]), events.drop_first())
    }
}

/// Reverse registration order over whole runs: along any admissible
/// teardown run, the indices of the children being shut down never
/// increase — the teardown starts at the last-registered child and works
/// strictly towards the first, never returning to an earlier child.
pub proof fn lemma_visited_in_reverse_order(t: Teardown, events: Seq<Event>)
    requires
        t.wf(),
        teardown_run_allowed(t, events),
    ensures
        forall|i: int|
            0 <= i < visited_children(t, events).len() ==> #[trigger] visited_children(
                t,
                events,
            )[i] <= t.pending - 1,
        forall|i: int, j: int|
            #![trigger visited_children(t, events)[i], visited_children(t, events)[j]]
            0 <= i <= j < visited_children(t, events).len() ==> visited_children(t, events)[i]
                >= visited_children(t, events)[j],
    decreases events.len(),
{
    if events.len() > 0 {
        let t1 = t.step_spec(events[0]);
        protocol::lemma_step_spec_preserves_wf(t.current, events[0]);
        lemma_visited_in_reverse_order(t1, events.drop_first());
        let visited = visited_children(t, events);
        let tail = visited_children(t1, events.drop_first());
        assert(t1.pending <= t.pending);
        assert forall|i: int| 0 <= i < visited.len() implies visited[i] <= t.pending - 1 by {
            if i >= 1 {
                assert(visited[i] == tail[i - 1]);
                if tail.len() > 0 {
                    assert(tail[i - 1] <= t1.pending - 1);
                }
            }
        }
        assert forall|i: int, j: int| 0 <= i <= j < visited.len() implies visited[i]
            >= visited[j] by {
            if i == 0 {
                if j >= 1 {
                    assert(visited[j] == tail[j - 1]);
                    assert(tail[j - 1] <= t1.pending - 1);
                }
            } else {
                assert(visited[i] == tail[i - 1]);
                assert(visited[j] == tail[j - 1]);
            }
        }
    }
}

/// Error isolation: however the current child's shutdown completes —
/// with an exit status or with an error — the resulting teardown is the
/// same. The outcome is discarded, and the remaining children are
/// processed exactly as they would have been otherwise.
pub proof fn lemma_outcome_isolation(t: Teardown, event1: Event, event2: Event)
    requires
        t.wf(),
        t.pending > 0,
        event_allowed(t.current.action(), event1),
        event_allowed(t.current.action(), event2),
        t.current.step_spec(event1).phase is Done,
        t.current.step_spec(event2).phase is Done,
    ensures
        t.step_spec(event1) == t.step_spec(event2),
{
}

} // verus!
