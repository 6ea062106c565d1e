use mdns_rr::client::{
    backoff, initial_request_text, ConnectionOutcome, FrameAction, IncomingFrame, ReconnectAction,
    WebSocketClient,
};

#[test]
fn new_client_counts_nothing() {
    let c = WebSocketClient::new("ws://127.0.0.1:8081".to_string());
    assert_eq!(c.get_message_count(), 0);
    assert_eq!(c.get_sent_count(), 0);
    assert_eq!(c.reconnect_attempts(), 0);
    assert_eq!(c.url(), "ws://127.0.0.1:8081");
}

#[test]
fn text_frames_are_counted() {
    let mut c = WebSocketClient::new("u".to_string());
    assert_eq!(c.handle_incoming(IncomingFrame::Text), FrameAction::Continue);
    assert_eq!(c.handle_incoming(IncomingFrame::Ping), FrameAction::Continue);
    assert_eq!(c.handle_incoming(IncomingFrame::Pong), FrameAction::Continue);
    assert_eq!(c.handle_incoming(IncomingFrame::Other), FrameAction::Continue);
    assert_eq!(c.handle_incoming(IncomingFrame::Text), FrameAction::Continue);
    assert_eq!(c.get_message_count(), 2);
    assert_eq!(c.handle_incoming(IncomingFrame::Close), FrameAction::Stop);
    assert_eq!(c.handle_incoming(IncomingFrame::Error), FrameAction::Stop);
    assert_eq!(c.get_message_count(), 2);
    c.record_sent();
    assert_eq!(c.get_sent_count(), 1);
}

#[test]
fn reconnect_backs_off_then_gives_up() {
    let mut c = WebSocketClient::new("u".to_string());
    let mut waits = Vec::new();
    loop {
        match c.connection_ended(ConnectionOutcome::Failed) {
            ReconnectAction::RetryAfter(s) => waits.push(s),
            ReconnectAction::GiveUp => break,
            ReconnectAction::Reconnect => panic!("a failure never reconnects at once"),
        }
    }
    assert_eq!(waits, vec![2, 4, 8, 16, 32, 64, 64, 64, 64]);
    assert_eq!(c.reconnect_attempts(), 10);
}

#[test]
fn normal_close_resets_attempts() {
    let mut c = WebSocketClient::new("u".to_string());
    assert_eq!(c.connection_ended(ConnectionOutcome::Failed), ReconnectAction::RetryAfter(2));
    assert_eq!(c.connection_ended(ConnectionOutcome::Failed), ReconnectAction::RetryAfter(4));
    assert_eq!(c.connection_ended(ConnectionOutcome::Closed), ReconnectAction::Reconnect);
    assert_eq!(c.reconnect_attempts(), 0);
    assert_eq!(c.connection_ended(ConnectionOutcome::Failed), ReconnectAction::RetryAfter(2));
}

#[test]
fn backoff_values() {
    assert_eq!(backoff(0), 1);
    assert_eq!(backoff(1), 2);
    assert_eq!(backoff(5), 32);
    assert_eq!(backoff(6), 64);
    assert_eq!(backoff(u32::MAX), 64);
}

#[test]
fn first_request() {
    assert_eq!(initial_request_text(), r#"{"c":1}"#);
}

#[test]
fn counts_tally_text_frames_and_sends() {
    let mut c = WebSocketClient::new("ws://h".to_string());
    for frame in [IncomingFrame::Text, IncomingFrame::Ping, IncomingFrame::Text, IncomingFrame::Pong, IncomingFrame::Other] {
        c.handle_incoming(frame);
    }
    c.record_sent();
    c.record_sent();
    c.record_sent();
    assert_eq!(c.get_message_count(), 2);
    assert_eq!(c.get_sent_count(), 3);
}
