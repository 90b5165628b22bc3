use http_server::config::{ServerConfiguration, ServerProtocol, ServerSocketType};
use http_server::connection::{ConnectionID, ConnectionTracker};
use http_server::request::{Method, RequestID, RequestIDFactory};
use http_server::server::connection::{
    ConnectionAction, ConnectionEvent, ConnectionHandler, ConnectionPhase, ConnectionState,
    Continuation,
};
use http_server::time::{Duration, Timestamp};

fn handler(max_lifetime: u64, graceful: u64) -> ConnectionHandler {
    ConnectionHandler::new(&ServerConfiguration {
        bind_address: "127.0.0.1:8080".to_owned(),
        server_protocol: ServerProtocol::Http1,
        connection_max_lifetime: Duration::from_secs(max_lifetime),
        connection_graceful_shutdown_timeout: Duration::from_secs(graceful),
    })
}

fn race(signal_shutdown: bool, secs: u64) -> ConnectionAction {
    ConnectionAction {
        signal_shutdown,
        next: Continuation::Race { timeout: Duration::from_secs(secs) },
    }
}

fn stop(signal_shutdown: bool) -> ConnectionAction {
    ConnectionAction { signal_shutdown, next: Continuation::Stop }
}

#[test]
fn connection_starts_serving_against_the_maximum_lifetime() {
    let (state, action) = handler(300, 10).start();
    assert_eq!(state, ConnectionState { phase: ConnectionPhase::Serving, timer: 0 });
    assert_eq!(action, race(false, 300));
}

#[test]
fn natural_completion_closes_the_connection() {
    let handler = handler(300, 10);
    let (state, _) = handler.start();
    let (state, action) = handler.on_event(state, ConnectionEvent::EngineCompleted);
    assert_eq!(state.phase, ConnectionPhase::Closed);
    assert_eq!(action, stop(false));
    let (state, action) = handler.on_event(state, ConnectionEvent::TimerFired);
    assert_eq!(state.phase, ConnectionPhase::Closed);
    assert_eq!(action, stop(false));
}

#[test]
fn timeout_asks_for_graceful_shutdown_and_arms_the_next_timer() {
    let handler = handler(300, 10);
    let (state, _) = handler.start();
    let (state, action) = handler.on_event(state, ConnectionEvent::TimerFired);
    assert_eq!(
        state,
        ConnectionState { phase: ConnectionPhase::GracefulShutdownRequested, timer: 1 }
    );
    assert_eq!(action, race(true, 10));
    let (closed, action) = handler.on_event(state, ConnectionEvent::EngineCompleted);
    assert_eq!(closed.phase, ConnectionPhase::Closed);
    assert_eq!(action, stop(false));
}

#[test]
fn connection_that_never_completes_gets_one_signal_per_timer_in_order() {
    let handler = handler(300, 10);
    let events = vec![ConnectionEvent::TimerFired; 5];
    let actions = handler.handle_connection(&events);
    assert_eq!(
        actions,
        vec![race(false, 300), race(true, 10), stop(true), stop(false), stop(false), stop(false)]
    );
    assert_eq!(actions.iter().filter(|a| a.signal_shutdown).count(), 2);
}

#[test]
fn three_timers_give_three_signals() {
    let handler = ConnectionHandler::with_timeouts(vec![
        Duration::from_secs(3),
        Duration::from_secs(2),
        Duration::from_secs(1),
    ]);
    let actions = handler.handle_connection(&vec![ConnectionEvent::TimerFired; 3]);
    assert_eq!(actions, vec![race(false, 3), race(true, 2), race(true, 1), stop(true)]);
}

#[test]
fn completion_after_the_first_timeout_stops_the_escalation() {
    let handler = handler(300, 10);
    let events = vec![
        ConnectionEvent::TimerFired,
        ConnectionEvent::EngineCompleted,
        ConnectionEvent::TimerFired,
    ];
    assert_eq!(
        handler.handle_connection(&events),
        vec![race(false, 300), race(true, 10), stop(false), stop(false)]
    );
}

#[test]
fn handler_without_timers_stops_at_once() {
    let handler = ConnectionHandler::with_timeouts(Vec::new());
    let (state, action) = handler.start();
    assert_eq!(state.phase, ConnectionPhase::Closed);
    assert_eq!(action, stop(false));
    assert_eq!(handler.handle_connection(&Vec::new()), vec![stop(false)]);
}

#[test]
fn timer_position_out_of_range_closes_the_connection() {
    let handler = handler(300, 10);
    let state = ConnectionState { phase: ConnectionPhase::Serving, timer: usize::MAX };
    let (state, action) = handler.on_event(state, ConnectionEvent::TimerFired);
    assert_eq!(state.phase, ConnectionPhase::Closed);
    assert_eq!(action, stop(true));
}

#[test]
fn each_request_is_counted_and_gets_a_fresh_identifier() {
    let handler = handler(300, 10);
    let mut tracker = ConnectionTracker::new();
    let mut request_ids = RequestIDFactory::new();
    let first = tracker.add_connection(
        Timestamp::from_unix_secs(0),
        ServerProtocol::Http1,
        ServerSocketType::Tcp,
    );
    let second = tracker.add_connection(
        Timestamp::from_unix_secs(0),
        ServerProtocol::Http1,
        ServerSocketType::Tcp,
    );
    let a = handler.handle_request(
        &mut tracker,
        &mut request_ids,
        &second,
        Method::Get,
        "connection_info".to_owned(),
    );
    let b = handler.handle_request(
        &mut tracker,
        &mut request_ids,
        &second,
        Method::Post,
        "upload".to_owned(),
    );
    let c = handler.handle_request(&mut tracker, &mut request_ids, &first, Method::Get, "".to_owned());
    assert_eq!(a.request_id, RequestID(1));
    assert_eq!(b.request_id, RequestID(2));
    assert_eq!(c.request_id, RequestID(3));
    assert_eq!(a.connection_id, ConnectionID(2));
    assert_eq!(c.connection_id, ConnectionID(1));
    assert!(a.method.same_as(&Method::Get));
    assert_eq!(b.path_suffix, "upload");
    let snapshot = tracker.snapshot();
    assert_eq!(snapshot[0].num_requests, 1);
    assert_eq!(snapshot[1].num_requests, 2);
}

#[test]
fn released_guard_removes_its_connection() {
    let mut tracker = ConnectionTracker::new();
    let first = tracker.add_connection(
        Timestamp::from_unix_secs(0),
        ServerProtocol::Http1,
        ServerSocketType::Tcp,
    );
    let second = tracker.add_connection(
        Timestamp::from_unix_secs(0),
        ServerProtocol::Http2,
        ServerSocketType::Unix,
    );
    second.increment_num_requests(&mut tracker);
    first.release(&mut tracker);
    let snapshot = tracker.snapshot();
    assert_eq!(snapshot.len(), 1);
    assert_eq!(snapshot[0].connection_id, ConnectionID(2));
    assert_eq!(snapshot[0].num_requests, 1);
    second.release(&mut tracker);
    assert!(tracker.snapshot().is_empty());
}
