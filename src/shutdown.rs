//! The shutdown protocol: a broadcast flag observed by every listener's
//! accept loop, and the run that waits for listeners and connections to finish.
use vstd::prelude::*;

verus! {

/// What an accept loop does on one iteration.
#[derive(Clone, Copy, Debug, PartialEq, Eq, Structural)]
pub enum AcceptStep {
    /// The shutdown flag changed: leave the loop.
    Stop,
    /// Take the waiting connection and serve it in its own task.
    Accept,
    /// Nothing is ready yet.
    Wait,
}

/// The choice of an accept loop: the shutdown flag first, then a ready connection.
pub open spec fn step_for(shutdown_signalled: bool, connection_ready: bool) -> AcceptStep {
    if shutdown_signalled {
        AcceptStep::Stop
    } else if connection_ready {
        AcceptStep::Accept
    } else {
        AcceptStep::Wait
    }
}

/// One iteration of an accept loop, preferring the shutdown flag when a
/// connection is ready at the same time.
pub fn accept_step(shutdown_signalled: bool, connection_ready: bool) -> (r: AcceptStep)
    ensures
        r == step_for(shutdown_signalled, connection_ready),
{
    if shutdown_signalled {
        AcceptStep::Stop
    } else if connection_ready {
        AcceptStep::Accept
    } else {
        AcceptStep::Wait
    }
}

/// Something the run observes.
#[derive(Clone, Copy, Debug, PartialEq, Eq, Structural)]
pub enum RunEvent {
    /// The external interrupt arrived.
    Interrupt,
    /// A running listener has a connection ready.
    ConnectionReady,
    /// A running listener woke without a connection ready.
    Poll,
    /// A served connection finished.
    ConnectionClosed,
}

/// The state of the whole proxy run.
#[derive(Clone, Copy, Debug)]
pub struct RunState {
    /// The broadcast shutdown flag.
    pub shutdown: bool,
    /// Listeners whose accept loop has not stopped.
    pub listeners_running: u64,
    /// Connections accepted so far.
    pub accepted: u64,
    /// Accepted connections that finished.
    pub closed: u64,
}

impl RunState {
    /// Every accepted connection is still open or has finished.
    pub open spec fn wf(&self) -> bool {
        self.closed <= self.accepted
    }

    pub open spec fn open_connections(&self) -> int {
        self.accepted - self.closed
    }

    /// The run may return: every listener stopped and every connection finished.
    pub open spec fn finished(&self) -> bool {
        self.listeners_running == 0 && self.accepted == self.closed
    }

    /// The state after one event. A ready connection is accepted only while
    /// the flag is down; once it is up, the listener that wakes stops instead.
    pub open spec fn next(self, e: RunEvent) -> RunState {
        match e {
            RunEvent::Interrupt => RunState { shutdown: true, ..self },
            RunEvent::ConnectionReady => if self.listeners_running == 0 {
                self
            } else if self.shutdown {
                RunState { listeners_running: (self.listeners_running - 1) as u64, ..self }
            } else if self.accepted < u64::MAX {
                RunState { accepted: (self.accepted + 1) as u64, ..self }
            } else {
                self
            },
            RunEvent::Poll => if self.listeners_running > 0 && self.shutdown {
                RunState { listeners_running: (self.listeners_running - 1) as u64, ..self }
            } else {
                self
            },
            RunEvent::ConnectionClosed => if self.closed < self.accepted {
                RunState { closed: (self.closed + 1) as u64, ..self }
            } else {
                self
            },
        }
    }

    /// The state after a run of events.
    pub open spec fn after(self, events: Seq<RunEvent>) -> RunState
        decreases events.len(),
    {
        if events.len() == 0 {
            self
        } else {
            self.next(events[0]).after(events.drop_first())
        }
    }

    /// A run with `listeners` listeners, the flag down and nothing accepted.
    pub fn new(listeners: u64) -> (r: RunState)
        ensures
            r.wf(),
            !r.shutdown,
            r.listeners_running == listeners,
            r.accepted == 0,
            r.closed == 0,
    {
        RunState { shutdown: false, listeners_running: listeners, accepted: 0, closed: 0 }
    }

    /// Applies one event; returns what a listener that woke did.
    pub fn step(&mut self, e: RunEvent) -> (r: AcceptStep)
        requires
            old(self).accepted < u64::MAX,
        ensures
            *final(self) == old(self).next(e),
            e == RunEvent::ConnectionReady && old(self).listeners_running > 0 ==> r == step_for(
                old(self).shutdown,
                true,
            ),
            e == RunEvent::Poll && old(self).listeners_running > 0 ==> r == step_for(
                old(self).shutdown,
                false,
            ),
            e == RunEvent::Interrupt || e == RunEvent::ConnectionClosed
                || old(self).listeners_running == 0 ==> r == AcceptStep::Wait,
    {
        match e {
            RunEvent::Interrupt => {
                self.shutdown = true;
                AcceptStep::Wait
            },
            RunEvent::ConnectionReady => {
                if self.listeners_running == 0 {
                    AcceptStep::Wait
                } else {
                    let s = accept_step(self.shutdown, true);
                    match s {
                        AcceptStep::Stop => {
                            self.listeners_running = self.listeners_running - 1;
                        },
                        _ => {
                            self.accepted = self.accepted + 1;
                        },
                    }
                    s
                }
            },
            RunEvent::Poll => {
                if self.listeners_running == 0 {
                    AcceptStep::Wait
                } else {
                    let s = accept_step(self.shutdown, false);
                    if s == AcceptStep::Stop {
                        self.listeners_running = self.listeners_running - 1;
                    }
                    s
                }
            },
            RunEvent::ConnectionClosed => {
                if self.closed < self.accepted {
                    self.closed = self.closed + 1;
                }
                AcceptStep::Wait
            },
        }
    }

    /// Whether the run may return.
    pub fn may_return(&self) -> (r: bool)
        ensures
            r == self.finished(),
    {
        self.listeners_running == 0 && self.accepted == self.closed
    }
}

/// Once the shutdown flag is up, no event accepts a connection: the flag
/// stays up and the accepted count stays as it was, while connections
/// already accepted can still finish.
pub proof fn lemma_no_accept_after_shutdown(s: RunState, events: Seq<RunEvent>)
    requires
        s.shutdown,
        s.wf(),
    ensures
        s.after(events).shutdown,
        s.after(events).accepted == s.accepted,
        s.after(events).wf(),
        s.after(events).closed >= s.closed,
    decreases events.len(),
{
    if events.len() > 0 {
        lemma_no_accept_after_shutdown(s.next(events[0]), events.drop_first());
    }
}

/// The run returns only when every accepted connection has finished.
pub proof fn lemma_return_only_when_drained(s: RunState)
    requires
        s.finished(),
    ensures
        s.open_connections() == 0,
        s.listeners_running == 0,
{
}

/// Every event keeps the state well formed.
pub proof fn lemma_wf_preserved(s: RunState, events: Seq<RunEvent>)
    requires
        s.wf(),
    ensures
        s.after(events).wf(),
    decreases events.len(),
{
    if events.len() > 0 {
        lemma_wf_preserved(s.next(events[0]), events.drop_first());
    }
}

} // verus!
