use room_hub::message::{IncomingMessage, Sender};
use room_hub::session::{
    poll_outcome, Frame, FrameAction, PollOutcome, PushSession, TickAction, DEAD_AFTER_PROBES, PROBE_INTERVAL_SECS,
};

fn msg(room: &str, command: &str) -> IncomingMessage {
    IncomingMessage {
        room_id: room.to_string(),
        sender: Sender { id: "A".to_string(), sender_type: "ученик".to_string() },
        target: None,
        msg_command: command.to_string(),
        payload: Some("{\"k\":1}".to_string()),
    }
}

#[test]
fn valid_text_is_published() {
    let mut s = PushSession::new("A".to_string(), 5);
    match s.on_frame(Frame::Text(Ok(msg("r", "X"))), 9) {
        FrameAction::Publish(m) => {
            assert_eq!(m.msg_command, "X");
            assert_eq!(m.sender.id, "A");
            assert_eq!(m.payload.as_deref(), Some("{\"k\":1}"));
        }
        other => panic!("unexpected {:?}", other),
    }
    assert_eq!(s.last_seen_ms, 5);
}

#[test]
fn invalid_text_gets_error_reply() {
    let mut s = PushSession::new("A".to_string(), 0);
    match s.on_frame(Frame::Text(Ok(msg("r", ""))), 1) {
        FrameAction::Reply(t) => assert_eq!(t, "Invalid message: Поле msg_command не должно быть пустым"),
        other => panic!("unexpected {:?}", other),
    }
    match s.on_frame(Frame::Text(Err("expected value".to_string())), 1) {
        FrameAction::Reply(t) => assert_eq!(t, "JSON parse error expected value"),
        other => panic!("unexpected {:?}", other),
    }
}

#[test]
fn ping_and_pong_refresh_liveness() {
    let mut s = PushSession::new("A".to_string(), 100);
    match s.on_frame(Frame::Ping(vec![1, 2]), 200) {
        FrameAction::Pong(b) => assert_eq!(b, vec![1, 2]),
        other => panic!("unexpected {:?}", other),
    }
    assert_eq!(s.last_seen_ms, 200);
    assert!(matches!(s.on_frame(Frame::Pong, 300), FrameAction::Nothing));
    assert_eq!(s.last_seen_ms, 300);
    assert!(matches!(s.on_frame(Frame::Close, 400), FrameAction::Stop));
    assert!(matches!(s.on_frame(Frame::Other, 500), FrameAction::Nothing));
    assert_eq!(s.last_seen_ms, 300);
}

#[test]
fn silent_connection_closes_itself() {
    assert_eq!(PROBE_INTERVAL_SECS * DEAD_AFTER_PROBES, 30);
    let s = PushSession::new("A".to_string(), 1_000);
    assert_eq!(s.on_tick(1_000), TickAction::Ping);
    assert_eq!(s.on_tick(31_000), TickAction::Ping);
    assert_eq!(s.on_tick(31_001), TickAction::Stop);
    // a clock reading before the last signal is no silence
    assert_eq!(s.on_tick(0), TickAction::Ping);
}

#[test]
fn poll_outcome_bodies() {
    assert_eq!(PollOutcome::Delivered("{\"a\":1}".to_string()).body(), "{\"a\":1}");
    assert_eq!(PollOutcome::TimedOut.body(), "heartbeat timeout");
}

#[test]
fn poll_outcome_from_the_wait() {
    assert_eq!(poll_outcome(false, Some("m".to_string())).body(), "m");
    assert_eq!(poll_outcome(false, None).body(), "heartbeat timeout");
    assert_eq!(poll_outcome(true, None).body(), "heartbeat timeout");
    assert!(matches!(poll_outcome(true, Some("m".to_string())), PollOutcome::TimedOut));
}
