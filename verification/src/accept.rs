//! The accept loop as a state machine.
//!
//! The loop that owns the listening socket does what `LoopState::action`
//! asks for, reports what came of it as a `LoopEvent`, and moves to the state
//! that `LoopState::next` returns. Connections are served one at a time, and
//! nothing that happens to a connection ends the loop: only a broken
//! listener and a cleared shutdown signal do.

use vstd::prelude::*;
use crate::framer::FrameError;

verus! {

/// Time to sleep after an accept that found no connection, in milliseconds.
pub const POLL_INTERVAL_MS: u64 = 100;

/// Longest time that one read on a connection may block, in milliseconds.
pub const READ_TIMEOUT_MS: u64 = 500;

/// Size of the receive buffer, and so the longest message, in bytes.
pub const BUFFER_CAPACITY: usize = 1024;

/// Where the accept loop stands.
#[derive(Clone, Copy, Debug, PartialEq, Eq, Structural)]
pub enum LoopState {
    /// No connection in hand: the next thing to do is an accept.
    Polling,
    /// One connection is being framed.
    Serving,
    /// The last accept found no connection: sleep, then look at the
    /// shutdown signal.
    Idle,
    /// The shutdown signal was found cleared. The loop has ended.
    Stopped,
    /// The listener failed. The loop has ended.
    Failed,
}

/// What came of one connection.
#[derive(Clone, Copy, Debug, PartialEq, Eq, Structural)]
pub enum ServeOutcome {
    /// A message was framed and handed to the consumer.
    Forwarded,
    /// A message was framed, but no consumer is left to take it.
    SendFailed,
    /// The peer closed the connection before a message was complete.
    PeerClosed,
    /// The framer gave the connection up.
    Rejected(FrameError),
}

/// What the loop reports after it has done what was asked.
#[derive(Clone, Copy, Debug, PartialEq, Eq, Structural)]
pub enum LoopEvent {
    /// The accept returned a connection.
    Accepted,
    /// The accept found no connection waiting.
    WouldBlock,
    /// The accept failed in any other way.
    AcceptFailed,
    /// The connection has been dealt with and is closed.
    Served(ServeOutcome),
    /// The sleep is over, and the shutdown signal was read: `true` while the
    /// server is to keep running, `false` once it has been cleared.
    Signal(bool),
}

/// What the loop is to do next.
#[derive(Clone, Copy, Debug, PartialEq, Eq, Structural)]
pub enum LoopAction {
    /// Try to accept a connection, without blocking.
    Accept,
    /// Frame the accepted connection, to its end.
    Serve,
    /// Sleep for so many milliseconds, then read the shutdown signal.
    SleepThenCheck(u64),
    /// Leave the loop and release the listening endpoint.
    CleanUp,
}

impl LoopState {
    /// The loop has ended.
    pub open spec fn terminal(self) -> bool {
        self == LoopState::Stopped || self == LoopState::Failed
    }

    /// What the loop is to do in this state.
    pub open spec fn action_spec(self) -> LoopAction {
        match self {
            LoopState::Polling => LoopAction::Accept,
            LoopState::Serving => LoopAction::Serve,
            LoopState::Idle => LoopAction::SleepThenCheck(POLL_INTERVAL_MS),
            LoopState::Stopped => LoopAction::CleanUp,
            LoopState::Failed => LoopAction::CleanUp,
        }
    }

    /// The state that follows `self` on `event`. An event that the state
    /// did not ask for changes nothing.
    pub open spec fn next_spec(self, event: LoopEvent) -> LoopState {
        match (self, event) {
            (LoopState::Polling, LoopEvent::Accepted) => LoopState::Serving,
            (LoopState::Polling, LoopEvent::WouldBlock) => LoopState::Idle,
            (LoopState::Polling, LoopEvent::AcceptFailed) => LoopState::Failed,
            (LoopState::Serving, LoopEvent::Served(_)) => LoopState::Polling,
            (LoopState::Idle, LoopEvent::Signal(keep_running)) => if keep_running {
                LoopState::Polling
            } else {
                LoopState::Stopped
            },
            _ => self,
        }
    }

    /// The state in which the events, taken in order, leave the loop.
    pub open spec fn run(self, events: Seq<LoopEvent>) -> LoopState
        decreases events.len(),
    {
        if events.len() == 0 {
            self
        } else {
            self.run(events.drop_last()).next_spec(events.last())
        }
    }

    /// The state in which a server starts.
    pub fn start() -> (state: LoopState)
        ensures
            state == LoopState::Polling,
    {
        LoopState::Polling
    }

    /// Whether the loop has ended.
    pub fn is_terminal(self) -> (ended: bool)
        ensures
            ended == self.terminal(),
    {
        match self {
            LoopState::Stopped => true,
            LoopState::Failed => true,
            _ => false,
        }
    }

    /// What the loop is to do in this state.
    pub fn action(self) -> (action: LoopAction)
        ensures
            action == self.action_spec(),
            (action == LoopAction::CleanUp) == self.terminal(),
    {
        match self {
            LoopState::Polling => LoopAction::Accept,
            LoopState::Serving => LoopAction::Serve,
            LoopState::Idle => LoopAction::SleepThenCheck(POLL_INTERVAL_MS),
            LoopState::Stopped => LoopAction::CleanUp,
            LoopState::Failed => LoopAction::CleanUp,
        }
    }

    /// Moves on by one event.
    pub fn next(self, event: LoopEvent) -> (state: LoopState)
        ensures
            state == self.next_spec(event),
    {
        match self {
            LoopState::Polling => match event {
                LoopEvent::Accepted => LoopState::Serving,
                LoopEvent::WouldBlock => LoopState::Idle,
                LoopEvent::AcceptFailed => LoopState::Failed,
                _ => self,
            },
            LoopState::Serving => match event {
                LoopEvent::Served(_) => LoopState::Polling,
                _ => self,
            },
            LoopState::Idle => match event {
                LoopEvent::Signal(keep_running) => if keep_running {
                    LoopState::Polling
                } else {
                    LoopState::Stopped
                },
                _ => self,
            },
            LoopState::Stopped => self,
            LoopState::Failed => self,
        }
    }
}

/// A loop that has ended stays as it is, whatever is reported to it.
pub proof fn lemma_terminal_is_final(state: LoopState, events: Seq<LoopEvent>)
    requires
        state.terminal(),
    ensures
        state.run(events) == state,
    decreases events.len(),
{
    if events.len() > 0 {
        lemma_terminal_is_final(state, events.drop_last());
    }
}

/// Nothing that happens to a connection ends the loop: as long as no accept
/// fails and the shutdown signal is not found cleared, the loop goes on,
/// whatever came of the connections, a failed hand-over to the consumer
/// included.
pub proof fn lemma_connections_never_end_the_loop(state: LoopState, events: Seq<LoopEvent>)
    requires
        !state.terminal(),
        forall|i: int|
            0 <= i < events.len() ==> events[i] != LoopEvent::AcceptFailed && events[i]
                != LoopEvent::Signal(false),
    ensures
        !state.run(events).terminal(),
    decreases events.len(),
{
    if events.len() > 0 {
        let front = events.drop_last();
        assert forall|i: int| 0 <= i < front.len() implies front[i] != LoopEvent::AcceptFailed
            && front[i] != LoopEvent::Signal(false) by {
            assert(front[i] == events[i]);
        }
        lemma_connections_never_end_the_loop(state, front);
    }
}

/// A connection is served at once and to its end: from `Polling`, an
/// accepted connection followed by its outcome leads back to `Polling`, and
/// in between the loop does nothing but serve.
pub proof fn lemma_serving_returns_to_polling(outcome: ServeOutcome)
    ensures
        LoopState::Polling.next_spec(LoopEvent::Accepted) == LoopState::Serving,
        LoopState::Serving.action_spec() == LoopAction::Serve,
        LoopState::Serving.next_spec(LoopEvent::Served(outcome)) == LoopState::Polling,
        forall|event: LoopEvent|
            !(event is Served) ==> LoopState::Serving.next_spec(event) == LoopState::Serving,
{
}

/// A cleared shutdown signal stops the loop at the next idle check: one
/// sleep of the poll interval after an accept that found nothing, and the
/// loop is over and asks for the endpoint to be released.
pub proof fn lemma_cleared_signal_stops_after_one_poll(state: LoopState)
    requires
        state == LoopState::Polling.next_spec(LoopEvent::WouldBlock),
    ensures
        state.action_spec() == LoopAction::SleepThenCheck(POLL_INTERVAL_MS),
        state.next_spec(LoopEvent::Signal(false)) == LoopState::Stopped,
        state.next_spec(LoopEvent::Signal(false)).action_spec() == LoopAction::CleanUp,
        state.next_spec(LoopEvent::Signal(true)) == LoopState::Polling,
{
}

} // verus!
