use websocket_producer::listener::{
    AcceptFailure, BindError, Listener, ListenerAction, ListenerOutcome, ListenerState,
};
use websocket_producer::notice::{Notice, Severity};

fn bound_listener() -> Listener {
    let mut listener = Listener::new("127.0.0.1:8888".to_string());
    assert_eq!(listener.advance(ListenerOutcome::Succeeded), Some(Notice::BindSucceeded));
    listener
}

#[test]
fn listener_begins_by_binding_its_address() {
    let listener = Listener::new("127.0.0.1:8888".to_string());
    assert_eq!(listener.state(), ListenerState::Binding);
    assert_eq!(listener.pending(), ListenerAction::Bind("127.0.0.1:8888".to_string()));
}

#[test]
fn failed_bind_is_reported_and_nothing_is_accepted() {
    let mut listener = Listener::new("127.0.0.1:8888".to_string());
    assert_eq!(listener.advance(ListenerOutcome::ListenerLost), Some(Notice::BindFailed));
    assert_eq!(listener.state(), ListenerState::BindFailed);
    assert_eq!(listener.pending(), ListenerAction::Finish(Err(BindError {})));
    for outcome in [
        ListenerOutcome::Succeeded,
        ListenerOutcome::ConnectionLost,
        ListenerOutcome::ListenerLost,
    ] {
        assert_eq!(listener.advance(outcome), None);
        assert_eq!(listener.state(), ListenerState::BindFailed);
        assert_eq!(listener.pending(), ListenerAction::Finish(Err(BindError {})));
    }
}

#[test]
fn any_failure_to_bind_is_final() {
    let mut listener = Listener::new("127.0.0.1:8888".to_string());
    assert_eq!(listener.advance(ListenerOutcome::ConnectionLost), Some(Notice::BindFailed));
    assert_eq!(listener.state(), ListenerState::BindFailed);
    assert_eq!(listener.pending(), ListenerAction::Finish(Err(BindError {})));
}

#[test]
fn bound_listener_accepts() {
    let listener = bound_listener();
    assert_eq!(listener.state(), ListenerState::Accepting);
    assert_eq!(listener.pending(), ListenerAction::Accept);
}

#[test]
fn accepted_connection_is_dispatched_and_the_listener_accepts_again() {
    let mut listener = bound_listener();
    for _ in 0..3 {
        assert_eq!(listener.advance(ListenerOutcome::Succeeded), Some(Notice::ConnectionAccepted));
        assert_eq!(listener.state(), ListenerState::Dispatching);
        assert_eq!(listener.pending(), ListenerAction::Dispatch);
        assert_eq!(listener.advance(ListenerOutcome::Succeeded), None);
        assert_eq!(listener.state(), ListenerState::Accepting);
        assert_eq!(listener.pending(), ListenerAction::Accept);
    }
}

#[test]
fn listener_does_not_wait_for_what_became_of_a_dispatch() {
    for outcome in [
        ListenerOutcome::Succeeded,
        ListenerOutcome::ConnectionLost,
        ListenerOutcome::ListenerLost,
    ] {
        let mut listener = bound_listener();
        listener.advance(ListenerOutcome::Succeeded);
        assert_eq!(listener.advance(outcome), None);
        assert_eq!(listener.state(), ListenerState::Accepting);
    }
}

#[test]
fn lost_connection_is_logged_and_accepting_goes_on() {
    let mut listener = bound_listener();
    for _ in 0..5 {
        assert_eq!(listener.advance(ListenerOutcome::ConnectionLost), Some(Notice::AcceptFailed));
        assert_eq!(listener.state(), ListenerState::Accepting);
        assert_eq!(listener.pending(), ListenerAction::Accept);
    }
    assert_eq!(listener.advance(ListenerOutcome::Succeeded), Some(Notice::ConnectionAccepted));
}

#[test]
fn lost_listener_ends_the_loop_without_an_error() {
    let mut listener = bound_listener();
    assert_eq!(listener.advance(ListenerOutcome::ListenerLost), Some(Notice::ListenerStopped));
    assert_eq!(listener.state(), ListenerState::Stopped);
    assert_eq!(listener.pending(), ListenerAction::Finish(Ok(())));
    assert_eq!(listener.advance(ListenerOutcome::Succeeded), None);
    assert_eq!(listener.state(), ListenerState::Stopped);
}

#[test]
fn shutdown_stops_a_listener_wherever_it_stands() {
    let mut binding = Listener::new("h:1".to_string());
    binding.shutdown();
    assert_eq!(binding.state(), ListenerState::Stopped);
    assert_eq!(binding.pending(), ListenerAction::Finish(Ok(())));

    let mut accepting = bound_listener();
    accepting.shutdown();
    assert_eq!(accepting.state(), ListenerState::Stopped);

    let mut dispatching = bound_listener();
    dispatching.advance(ListenerOutcome::Succeeded);
    dispatching.shutdown();
    assert_eq!(dispatching.state(), ListenerState::Stopped);
    assert_eq!(dispatching.advance(ListenerOutcome::Succeeded), None);
    assert_eq!(dispatching.state(), ListenerState::Stopped);
}

#[test]
fn shutdown_keeps_the_report_of_a_failed_bind() {
    let mut listener = Listener::new("h:1".to_string());
    listener.advance(ListenerOutcome::ListenerLost);
    listener.shutdown();
    assert_eq!(listener.state(), ListenerState::BindFailed);
    assert_eq!(listener.pending(), ListenerAction::Finish(Err(BindError {})));
}

#[test]
fn failures_of_a_connection_spare_the_listener() {
    for failure in [
        AcceptFailure::ConnectionRefused,
        AcceptFailure::ConnectionReset,
        AcceptFailure::ConnectionAborted,
        AcceptFailure::Interrupted,
        AcceptFailure::WouldBlock,
        AcceptFailure::TimedOut,
    ] {
        assert_eq!(failure.outcome(), ListenerOutcome::ConnectionLost);
    }
    assert_eq!(AcceptFailure::Other.outcome(), ListenerOutcome::ListenerLost);
}

#[test]
fn failures_are_warnings_and_the_rest_is_information() {
    for notice in [
        Notice::BindFailed,
        Notice::AcceptFailed,
        Notice::HandshakeFailed,
        Notice::SendFailed,
        Notice::CloseFailed,
    ] {
        assert_eq!(notice.severity(), Severity::Warning);
    }
    for notice in [
        Notice::BindSucceeded,
        Notice::ConnectionAccepted,
        Notice::ListenerStopped,
        Notice::ConnectionEstablished,
        Notice::ConnectionClosed,
    ] {
        assert_eq!(notice.severity(), Severity::Info);
    }
}
