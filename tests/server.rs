use talk_to_me::dispatch::{DispatchLoop, LoopAction, LoopEvent, LoopState};
use talk_to_me::responder::{create_response, ConnectionHandler};

const EXPECTED_HI: &str = "**Received your message:**\n```\nhi\n```\n\nHere's a sample response:\n\n# Lorem Ipsum\n## About this text\nLorem ipsum dolor sit amet, *consectetur* adipiscing elit. Sed do **eiusmod** tempor incididunt ut labore et dolore magna aliqua.\n\n- Point 1\n- Point 2\n- Point 3\n\n> This is a blockquote with your message length: 2 bytes\n";

#[test]
fn response_quotes_message_and_length() {
    let r = create_response(b"hi", 2);
    assert_eq!(String::from_utf8(r).unwrap(), EXPECTED_HI);
}

#[test]
fn response_replaces_invalid_utf8() {
    let r = String::from_utf8(create_response(&[0x61, 0xFF, 0x62], 3)).unwrap();
    assert!(r.contains("```\na\u{FFFD}b\n```"));
    assert!(r.ends_with("message length: 3 bytes\n"));
}

#[test]
fn connection_replies_until_closed() {
    let mut h = ConnectionHandler::new();
    let reply = h.process(b"hi").expect("a reply");
    assert_eq!(String::from_utf8(reply).unwrap(), EXPECTED_HI);
    let reply = h.process(b"hello world").unwrap();
    assert!(String::from_utf8(reply).unwrap().contains("length: 11 bytes"));
    assert_eq!(h.total_bytes_read(), 13);
    assert!(h.process(b"").is_none());
    assert_eq!(h.total_bytes_read(), 13);
}

#[test]
fn running_loop_spawns_tasks() {
    let mut l = DispatchLoop::new();
    assert!(l.accepts_work());
    assert_eq!(l.step(LoopEvent::ConnectionAccepted), LoopAction::SpawnConnectionTask);
    assert_eq!(l.step(LoopEvent::DatagramReceived), LoopAction::SpawnDatagramTask);
    assert_eq!(l.step(LoopEvent::ReceiveFailed), LoopAction::Continue);
    assert_eq!(l.current(), LoopState::Running);
}

#[test]
fn cancellation_stops_the_loop() {
    let mut l = DispatchLoop::new();
    assert_eq!(l.step(LoopEvent::Cancelled), LoopAction::AbortAll);
    assert_eq!(l.current(), LoopState::ShuttingDown);
    assert!(!l.accepts_work());
    assert_eq!(l.step(LoopEvent::DatagramReceived), LoopAction::Ignore);
    assert_eq!(l.step(LoopEvent::ConnectionAccepted), LoopAction::Ignore);
    l.tasks_aborted();
    assert_eq!(l.current(), LoopState::Stopped);
    assert_eq!(l.step(LoopEvent::DatagramReceived), LoopAction::Ignore);
    assert_eq!(l.step(LoopEvent::Cancelled), LoopAction::Ignore);
    assert_eq!(l.current(), LoopState::Stopped);
}
