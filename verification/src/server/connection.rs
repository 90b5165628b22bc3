//! The lifecycle of one accepted connection.
//!
//! A connection is served by a protocol engine that runs until the peer is
//! done. The handler bounds that with a list of timeouts: the engine races
//! against the first; each time a timeout wins, the engine is asked to shut
//! down gracefully and races against the next; when the list is used up the
//! handler lets go of the connection. The decisions are made here, one
//! event at a time; waiting and signalling are the caller's part.
use crate::config::ServerConfiguration;
use crate::connection::{wrapping_successor, ConnectionGuard, ConnectionTracker};
use crate::request::{HttpRequest, Method, RequestIDFactory};
use crate::time::Duration;
use vstd::prelude::*;

verus! {

/// Where a connection stands in its lifecycle.
#[derive(Clone, Copy, Debug, PartialEq, Eq, Structural)]
pub enum ConnectionPhase {
    /// The engine serves requests; no shutdown has been asked for.
    Serving,
    /// The engine has been asked to shut down gracefully and is finishing
    /// the requests in flight.
    GracefulShutdownRequested,
    /// The handler is done with the connection.
    Closed,
}

/// The state of a connection between two events.
#[derive(Clone, Copy, Debug, PartialEq, Eq, Structural)]
pub struct ConnectionState {
    pub phase: ConnectionPhase,
    /// Position, in the handler's list, of the timeout that is running.
    pub timer: usize,
}

/// What can happen while a connection is being served.
#[derive(Clone, Copy, Debug, PartialEq, Eq, Structural)]
pub enum ConnectionEvent {
    /// The protocol engine ran to completion, with or without an error.
    EngineCompleted,
    /// The running timeout elapsed first.
    TimerFired,
}

/// How the caller goes on after an event.
#[derive(Clone, Copy, Debug, PartialEq, Eq, Structural)]
pub enum Continuation {
    /// Let the engine run until it completes or `timeout` has elapsed.
    Race { timeout: Duration },
    /// Stop managing the connection and release what belongs to it.
    Stop,
}

/// What the caller is to do in response to an event.
#[derive(Clone, Copy, Debug, PartialEq, Eq, Structural)]
pub struct ConnectionAction {
    /// Whether to ask the engine to shut down gracefully first.
    pub signal_shutdown: bool,
    pub next: Continuation,
}

/// The continuation that arms the timeout at position `timer`, and stops
/// where the list has no such timeout.
pub open spec fn continuation_at(timeouts: Seq<Duration>, timer: int) -> Continuation {
    if 0 <= timer < timeouts.len() {
        Continuation::Race { timeout: timeouts[timer] }
    } else {
        Continuation::Stop
    }
}

/// The state of a connection that has seen `fired` timeouts elapse and
/// nothing else: racing against the timeout at that position, and closed
/// once the list is used up.
pub open spec fn state_after_timeouts(timeouts: Seq<Duration>, fired: int) -> ConnectionState {
    if fired >= timeouts.len() {
        ConnectionState {
            phase: ConnectionPhase::Closed,
            timer: if timeouts.len() == 0 {
                0
            } else {
                (timeouts.len() - 1) as usize
            },
        }
    } else if fired == 0 {
        ConnectionState { phase: ConnectionPhase::Serving, timer: 0 }
    } else {
        ConnectionState { phase: ConnectionPhase::GracefulShutdownRequested, timer: fired as usize }
    }
}

/// The state in which a connection starts: serving, racing against the
/// first timeout. With no timeout at all there is nothing to race against
/// and the connection is closed at once.
pub open spec fn initial_state(timeouts: Seq<Duration>) -> ConnectionState {
    state_after_timeouts(timeouts, 0)
}

/// The first thing to do with a connection.
pub open spec fn initial_action(timeouts: Seq<Duration>) -> ConnectionAction {
    ConnectionAction { signal_shutdown: false, next: continuation_at(timeouts, 0) }
}

/// The state after `event` in `state`.
///
/// A closed connection stays closed. Completion of the engine closes the
/// connection. A timeout that elapses moves on to the next timeout, in the
/// phase where a graceful shutdown has been asked for, and closes the
/// connection when there is no next one.
pub open spec fn next_state(
    timeouts: Seq<Duration>,
    state: ConnectionState,
    event: ConnectionEvent,
) -> ConnectionState {
    if state.phase == ConnectionPhase::Closed {
        state
    } else {
        match event {
            ConnectionEvent::EngineCompleted => ConnectionState {
                phase: ConnectionPhase::Closed,
                timer: state.timer,
            },
            ConnectionEvent::TimerFired => if state.timer + 1 < timeouts.len() {
                ConnectionState {
                    phase: ConnectionPhase::GracefulShutdownRequested,
                    timer: (state.timer + 1) as usize,
                }
            } else {
                ConnectionState { phase: ConnectionPhase::Closed, timer: state.timer }
            },
        }
    }
}

/// What to do about `event` in `state`.
///
/// Nothing is left to do for a closed connection, nor once the engine has
/// completed. A timeout that elapses is answered with one request for a
/// graceful shutdown, after which the engine races against the next
/// timeout, or is let go when there is none.
pub open spec fn action_for(
    timeouts: Seq<Duration>,
    state: ConnectionState,
    event: ConnectionEvent,
) -> ConnectionAction {
    if state.phase == ConnectionPhase::Closed {
        ConnectionAction { signal_shutdown: false, next: Continuation::Stop }
    } else {
        match event {
            ConnectionEvent::EngineCompleted => ConnectionAction {
                signal_shutdown: false,
                next: Continuation::Stop,
            },
            ConnectionEvent::TimerFired => ConnectionAction {
                signal_shutdown: true,
                next: if state.timer + 1 < timeouts.len() {
                    Continuation::Race { timeout: timeouts[state.timer + 1] }
                } else {
                    Continuation::Stop
                },
            },
        }
    }
}

/// The state that a connection is in after `events`, from its start.
pub open spec fn state_after(timeouts: Seq<Duration>, events: Seq<ConnectionEvent>)
    -> ConnectionState
    decreases events.len(),
{
    if events.len() == 0 {
        initial_state(timeouts)
    } else {
        next_state(timeouts, state_after(timeouts, events.drop_last()), events.last())
    }
}

/// Everything the caller is told to do over `events`: the first action,
/// then one action for each event.
pub open spec fn actions_over(timeouts: Seq<Duration>, events: Seq<ConnectionEvent>) -> Seq<
    ConnectionAction,
>
    decreases events.len(),
{
    if events.len() == 0 {
        seq![initial_action(timeouts)]
    } else {
        actions_over(timeouts, events.drop_last()).push(
            action_for(timeouts, state_after(timeouts, events.drop_last()), events.last()),
        )
    }
}

/// Drives accepted connections through their lifecycle. Its view is the
/// list of timeouts, in the order in which they are applied.
#[derive(Debug)]
pub struct ConnectionHandler {
    connection_timeout_durations: Vec<Duration>,
}

impl View for ConnectionHandler {
    type V = Seq<Duration>;

    closed spec fn view(&self) -> Seq<Duration> {
        self.connection_timeout_durations@
    }
}

impl ConnectionHandler {
    /// A handler that first lets a connection live for the configured
    /// maximum lifetime and then, once it has asked for a graceful
    /// shutdown, for the configured shutdown timeout.
    pub fn new(server_configuration: &ServerConfiguration) -> (handler: Self)
        ensures
            handler@ == seq![
                server_configuration.connection_max_lifetime,
                server_configuration.connection_graceful_shutdown_timeout,
            ],
    {
        let mut connection_timeout_durations: Vec<Duration> = Vec::with_capacity(2);
        connection_timeout_durations.push(server_configuration.connection_max_lifetime);
        connection_timeout_durations.push(
            server_configuration.connection_graceful_shutdown_timeout,
        );
        assert(connection_timeout_durations@ =~= seq![
            server_configuration.connection_max_lifetime,
            server_configuration.connection_graceful_shutdown_timeout,
        ]);
        Self { connection_timeout_durations }
    }

    /// A handler with any list of timeouts.
    pub fn with_timeouts(connection_timeout_durations: Vec<Duration>) -> (handler: Self)
        ensures
            handler@ == connection_timeout_durations@,
    {
        Self { connection_timeout_durations }
    }

    /// Takes in a request that arrived on the connection of `connection`:
    /// the request is counted on the connection's entry in the tracker and
    /// gets the next request identifier.
    pub fn handle_request(
        &self,
        connection_tracker: &mut ConnectionTracker,
        request_id_factory: &mut RequestIDFactory,
        connection: &ConnectionGuard,
        method: Method,
        path_suffix: String,
    ) -> (request: HttpRequest)
        ensures
            final(connection_tracker)@ == old(connection_tracker)@.increment(connection.id()),
            final(request_id_factory)@ == wrapping_successor(old(request_id_factory)@),
            request.connection_id == connection.id(),
            request.request_id.0 == old(request_id_factory)@,
            request.method == method,
            request.path_suffix == path_suffix,
    {
        connection.increment_num_requests(connection_tracker);
        let request_id = request_id_factory.new_request_id();
        HttpRequest::new(connection.id(), request_id, method, path_suffix)
    }

    /// The state and the first action for a connection that was just
    /// accepted.
    pub fn start(&self) -> (r: (ConnectionState, ConnectionAction))
        ensures
            r.0 == initial_state(self@),
            r.1 == initial_action(self@),
    {
        if self.connection_timeout_durations.len() > 0 {
            (
                ConnectionState { phase: ConnectionPhase::Serving, timer: 0 },
                ConnectionAction {
                    signal_shutdown: false,
                    next: Continuation::Race { timeout: self.connection_timeout_durations[0] },
                },
            )
        } else {
            (
                ConnectionState { phase: ConnectionPhase::Closed, timer: 0 },
                ConnectionAction { signal_shutdown: false, next: Continuation::Stop },
            )
        }
    }

    /// The state after `event` and what to do about it.
    pub fn on_event(&self, state: ConnectionState, event: ConnectionEvent) -> (r: (
        ConnectionState,
        ConnectionAction,
    ))
        ensures
            r.0 == next_state(self@, state, event),
            r.1 == action_for(self@, state, event),
    {
        match state.phase {
            ConnectionPhase::Closed => (
                state,
                ConnectionAction { signal_shutdown: false, next: Continuation::Stop },
            ),
            _ => match event {
                ConnectionEvent::EngineCompleted => (
                    ConnectionState { phase: ConnectionPhase::Closed, timer: state.timer },
                    ConnectionAction { signal_shutdown: false, next: Continuation::Stop },
                ),
                ConnectionEvent::TimerFired => {
                    let len: usize = self.connection_timeout_durations.len();
                    if state.timer < len && state.timer + 1 < len {
                        let timer: usize = state.timer + 1;
                        (
                            ConnectionState {
                                phase: ConnectionPhase::GracefulShutdownRequested,
                                timer,
                            },
                            ConnectionAction {
                                signal_shutdown: true,
                                next: Continuation::Race {
                                    timeout: self.connection_timeout_durations[timer],
                                },
                            },
                        )
                    } else {
                        (
                            ConnectionState { phase: ConnectionPhase::Closed, timer: state.timer },
                            ConnectionAction { signal_shutdown: true, next: Continuation::Stop },
                        )
                    }
                },
            },
        }
    }

    /// Runs a connection through `events` and returns everything the
    /// caller is told to do on the way: the first action, then one action
    /// for each event.
    pub fn handle_connection(&self, events: &Vec<ConnectionEvent>) -> (actions: Vec<
        ConnectionAction,
    >)
        ensures
            actions@ == actions_over(self@, events@),
    {
        let (mut state, first) = self.start();
        let mut actions: Vec<ConnectionAction> = Vec::new();
        actions.push(first);
        let mut i: usize = 0;
        while i < events.len()
            invariant
                i <= events.len(),
                state == state_after(self@, events@.take(i as int)),
                actions@ == actions_over(self@, events@.take(i as int)),
            decreases events.len() - i,
        {
            proof {
                assert(events@.take(i + 1).drop_last() =~= events@.take(i as int));
            }
            let (next, action) = self.on_event(state, events[i]);
            state = next;
            actions.push(action);
            i += 1;
        }
        proof {
            assert(events@.take(i as int) =~= events@);
        }
        actions
    }
}

/// Timeout escalation. A connection whose engine never completes is asked
/// to shut down gracefully exactly once for each configured timeout, in the
/// configured order: the connection starts racing against the first
/// timeout without a signal; the signal goes out each time a timeout
/// elapses, and is followed by the race against the next timeout, or by
/// letting the connection go when the last one has elapsed. After that no
/// further signal is sent.
pub proof fn lemma_timeout_escalation(timeouts: Seq<Duration>, events: Seq<ConnectionEvent>)
    requires
        timeouts.len() <= usize::MAX,
        forall|k: int| 0 <= k < events.len() ==> events[k] == ConnectionEvent::TimerFired,
    ensures
        state_after(timeouts, events) == state_after_timeouts(timeouts, events.len() as int),
        actions_over(timeouts, events).len() == events.len() + 1,
        forall|k: int|
            0 <= k <= events.len() ==> {
                let action = #[trigger] actions_over(timeouts, events)[k];
                &&& action.signal_shutdown == (1 <= k <= timeouts.len())
                &&& action.next == continuation_at(timeouts, k)
            },
    decreases events.len(),
{
    if events.len() > 0 {
        let earlier = events.drop_last();
        lemma_timeout_escalation(timeouts, earlier);
        let actions = actions_over(timeouts, events);
        assert forall|k: int| 0 <= k <= events.len() implies {
            let action = #[trigger] actions[k];
            &&& action.signal_shutdown == (1 <= k <= timeouts.len())
            &&& action.next == continuation_at(timeouts, k)
        } by {
            if k < events.len() {
                assert(actions[k] == actions_over(timeouts, earlier)[k]);
            }
        }
    }
}

/// Once the engine has completed the connection is closed, and a closed
/// connection stays closed and is never again asked to shut down.
pub proof fn lemma_closed_is_final(
    timeouts: Seq<Duration>,
    state: ConnectionState,
    event: ConnectionEvent,
)
    requires
        state.phase == ConnectionPhase::Closed || event == ConnectionEvent::EngineCompleted,
    ensures
        next_state(timeouts, state, event).phase == ConnectionPhase::Closed,
        !action_for(timeouts, state, event).signal_shutdown,
        action_for(timeouts, state, event).next == Continuation::Stop,
{
}

} // verus!
