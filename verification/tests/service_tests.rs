use std::sync::Arc;
use websocket_producer::listener::{ListenerAction, ListenerOutcome, ListenerState};
use websocket_producer::records::split_records;
use websocket_producer::session::{Outcome, SessionAction, SessionState};
use websocket_producer::websocket::{WebSocketHandler, WebSocketHandlerWorker};

fn worker_over(records: &[&str], frequency: u32) -> WebSocketHandlerWorker {
    let records: Vec<String> = records.iter().map(|record| record.to_string()).collect();
    WebSocketHandlerWorker::new("127.0.0.1:8888".to_string(), frequency, Arc::new(records))
}

fn whole_script(records: &[&str], interval: u64) -> Vec<SessionAction> {
    let mut script = vec![SessionAction::Handshake];
    for record in records {
        script.push(SessionAction::SendText(record.to_string()));
        script.push(SessionAction::Pause(interval));
    }
    script.push(SessionAction::SendClose);
    script
}

#[test]
fn handler_hands_its_configuration_to_the_worker() {
    let records = vec!["r0".to_string(), "r1".to_string()];
    let handler = WebSocketHandler::new("0.0.0.0", 9001, 250, records);
    let worker = handler.init();
    assert_eq!(worker.start().pending(), ListenerAction::Bind("0.0.0.0:9001".to_string()));
    let mut session = worker.open_session();
    assert_eq!(session.replay(&[Outcome::Succeeded; 6]), whole_script(&["r0", "r1"], 250));
}

#[test]
fn handler_can_be_initialised_again() {
    let handler = WebSocketHandler::new("h", 1, 2, vec!["x".to_string()]);
    let first = handler.init();
    let second = handler.init();
    assert_eq!(first.start().pending(), second.start().pending());
    assert_eq!(
        first.open_session().replay(&[Outcome::Succeeded; 4]),
        second.open_session().replay(&[Outcome::Succeeded; 4])
    );
}

#[test]
fn worker_starts_a_listener_that_is_about_to_bind() {
    let worker = worker_over(&["a"], 1000);
    let listener = worker.start();
    assert_eq!(listener.state(), ListenerState::Binding);
    assert_eq!(listener.pending(), ListenerAction::Bind("127.0.0.1:8888".to_string()));
}

#[test]
fn new_client_starts_afresh_after_an_earlier_session_ended() {
    let worker = worker_over(&["a", "b", "c"], 20);
    let mut earlier = worker.open_session();
    earlier.replay(&[Outcome::Succeeded; 8]);
    assert_eq!(earlier.state(), SessionState::Closed);

    let mut later = worker.open_session();
    assert_eq!(later.state(), SessionState::Handshaking);
    later.advance(Outcome::Succeeded);
    assert_eq!(later.state(), SessionState::Sending { index: 0 });
    assert_eq!(later.pending(), SessionAction::SendText("a".to_string()));
    let mut rest = vec![SessionAction::Handshake];
    rest.extend(later.replay(&[Outcome::Succeeded; 7]));
    assert_eq!(rest, whole_script(&["a", "b", "c"], 20));
}

#[test]
fn new_client_starts_afresh_while_an_earlier_session_is_under_way() {
    let worker = worker_over(&["a", "b", "c"], 20);
    let mut earlier = worker.open_session();
    earlier.replay(&[Outcome::Succeeded; 3]);
    assert_eq!(earlier.state(), SessionState::Sending { index: 1 });

    let mut later = worker.open_session();
    assert_eq!(later.state(), SessionState::Handshaking);
    assert_eq!(later.replay(&[Outcome::Succeeded; 8]), whole_script(&["a", "b", "c"], 20));
    assert_eq!(earlier.state(), SessionState::Sending { index: 1 });
    assert_eq!(earlier.pending(), SessionAction::SendText("b".to_string()));
}

#[test]
fn new_client_starts_afresh_after_a_failed_session() {
    let worker = worker_over(&["a"], 20);
    let mut earlier = worker.open_session();
    earlier.advance(Outcome::Failed);
    assert_eq!(earlier.state(), SessionState::Failed);
    let mut later = worker.open_session();
    assert_eq!(later.replay(&[Outcome::Succeeded; 4]), whole_script(&["a"], 20));
}

#[test]
fn two_clients_at_once_receive_the_same_sequence() {
    let records = ["a", "b", "c", "d"];
    let worker = worker_over(&records, 15);
    let mut first = worker.open_session();
    let mut second = worker.open_session();
    let mut first_actions = Vec::new();
    let mut second_actions = Vec::new();
    // The first client is served three steps for each step of the second.
    while !first.is_over() || !second.is_over() {
        for _ in 0..3 {
            if !first.is_over() {
                first_actions.push(first.pending());
                first.advance(Outcome::Succeeded);
            }
        }
        if !second.is_over() {
            second_actions.push(second.pending());
            second.advance(Outcome::Succeeded);
        }
    }
    assert_eq!(first_actions, whole_script(&records, 15));
    assert_eq!(second_actions, whole_script(&records, 15));
}

#[test]
fn one_client_failing_changes_nothing_for_the_other() {
    let records = ["a", "b", "c"];
    let worker = worker_over(&records, 15);
    let mut alone = worker.open_session();
    let expected = alone.replay(&[Outcome::Succeeded; 8]);

    let mut failing = worker.open_session();
    let mut sound = worker.open_session();
    let mut sound_actions = Vec::new();
    failing.advance(Outcome::Succeeded);
    for _ in 0..8 {
        failing.advance(Outcome::Failed);
        sound_actions.push(sound.pending());
        sound.advance(Outcome::Succeeded);
    }
    assert_eq!(sound_actions, expected);
    assert_eq!(sound.state(), SessionState::Closed);

    let mut refused = worker.open_session();
    let mut other = worker.open_session();
    refused.advance(Outcome::Failed);
    assert_eq!(other.replay(&[Outcome::Succeeded; 8]), expected);
}

#[test]
fn sessions_leave_the_listener_alone() {
    let worker = worker_over(&["a", "b"], 15);
    let mut listener = worker.start();
    listener.advance(ListenerOutcome::Succeeded);
    listener.advance(ListenerOutcome::Succeeded);
    assert_eq!(listener.pending(), ListenerAction::Dispatch);
    let mut session = worker.open_session();
    listener.advance(ListenerOutcome::Succeeded);
    assert_eq!(listener.pending(), ListenerAction::Accept);
    session.advance(Outcome::Failed);
    assert_eq!(listener.state(), ListenerState::Accepting);
    assert_eq!(listener.pending(), ListenerAction::Accept);
}

#[test]
fn file_with_trailing_line_feed_is_streamed_with_its_empty_record() {
    let handler = WebSocketHandler::new("127.0.0.1", 8888, 50, split_records("a\nb\n"));
    let mut session = handler.init().open_session();
    assert_eq!(session.replay(&[Outcome::Succeeded; 8]), whole_script(&["a", "b", ""], 50));
    assert!(session.is_over());
}

#[test]
fn interval_is_the_frequency_in_milliseconds() {
    for frequency in [0u32, 1, 1000, u32::MAX] {
        let worker = worker_over(&["a"], frequency);
        let mut session = worker.open_session();
        let actions = session.replay(&[Outcome::Succeeded; 3]);
        assert_eq!(actions[2], SessionAction::Pause(frequency as u64));
    }
}
