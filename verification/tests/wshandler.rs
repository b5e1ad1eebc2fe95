use bingo_server::wshandler::{
    Action, CloseReason, Connection, ErrorMessage, Event, IDMessage, WSMessage, CLIENT_TIMEOUT,
    HEARTBEAT_INTERVAL,
};

fn envelope(kind: &str) -> Option<WSMessage> {
    Some(WSMessage { kind: kind.to_string() })
}

fn text_event(text: &str, kind: Option<&str>) -> Event {
    Event::Text { text: text.to_string(), envelope: kind.and_then(envelope) }
}

#[test]
fn heartbeat_constants() {
    assert_eq!(HEARTBEAT_INTERVAL, 5_000);
    assert_eq!(CLIENT_TIMEOUT, 10_000);
    assert_eq!(CLIENT_TIMEOUT, 2 * HEARTBEAT_INTERVAL);
}

#[test]
fn id_message_is_the_id_envelope() {
    assert_eq!(IDMessage::new(7).to_string(), "{\"type\":\"id\",\"conn_id\":7}");
    assert_eq!(IDMessage::new(0).to_string(), "{\"type\":\"id\",\"conn_id\":0}");
    assert_eq!(IDMessage::new(10).to_string(), "{\"type\":\"id\",\"conn_id\":10}");
    assert_eq!(
        IDMessage::new(u32::MAX).to_string(),
        "{\"type\":\"id\",\"conn_id\":4294967295}"
    );
}

#[test]
fn id_message_reads_back_as_json() {
    let value: serde_json::Value = serde_json::from_str(&IDMessage::new(3205117).to_string()).unwrap();
    let object = value.as_object().unwrap();
    assert_eq!(object.len(), 2);
    assert_eq!(object["type"].as_str(), Some("id"));
    assert_eq!(object["conn_id"].as_u64(), Some(3205117));
}

#[test]
fn error_message_is_the_error_envelope() {
    assert_eq!(
        ErrorMessage::new("Room not found".to_string()).to_string(),
        "{\"type\":\"error\",\"message\":\"Room not found\"}"
    );
    assert_eq!(
        ErrorMessage::new(String::new()).to_string(),
        "{\"type\":\"error\",\"message\":\"\"}"
    );
}

#[test]
fn error_message_escapes_what_json_escapes() {
    let message = "say \"hi\"\\ \u{8}\t\n\u{c}\r \u{0}\u{1}\u{1f} \u{7f} / é \u{1F600}";
    assert_eq!(
        ErrorMessage::new(message.to_string()).to_string(),
        "{\"type\":\"error\",\"message\":\"say \\\"hi\\\"\\\\ \\b\\t\\n\\f\\r \\u0000\\u0001\\u001f \u{7f} / é \u{1F600}\"}"
    );
}

#[test]
fn error_message_reads_back_as_json() {
    let message = "line one\nline \"two\" \\ \u{1b}[0m é";
    let text = ErrorMessage::new(message.to_string()).to_string();
    let value: serde_json::Value = serde_json::from_str(&text).unwrap();
    let object = value.as_object().unwrap();
    assert_eq!(object.len(), 2);
    assert_eq!(object["type"].as_str(), Some("error"));
    assert_eq!(object["message"].as_str(), Some(message));
}

#[test]
fn a_new_connection_is_open_and_knows_its_ids() {
    let conn = Connection::new(5, 7, 1, 100);
    assert!(conn.is_open());
    assert_eq!(conn.room(), 5);
    assert_eq!(conn.conn_id(), 7);
    assert_eq!(conn.user_type(), 1);
    assert!(!conn.timed_out(100));
}

#[test]
fn ping_is_answered_with_a_pong_of_the_same_payload() {
    let mut conn = Connection::new(5, 7, 1, 0);
    match conn.on_event(Event::Ping(vec![1, 2, 3]), 9_000) {
        Action::Pong(bytes) => assert_eq!(bytes, vec![1, 2, 3]),
        other => panic!("unexpected action {:?}", other),
    }
    assert!(conn.is_open());
    // the ping counted as a heartbeat
    assert!(!conn.timed_out(19_000));
    assert!(conn.timed_out(19_001));
}

#[test]
fn pong_counts_as_a_heartbeat() {
    let mut conn = Connection::new(5, 7, 1, 0);
    assert!(matches!(conn.on_event(Event::Pong, 4_000), Action::Continue));
    assert!(!conn.timed_out(14_000));
    assert!(conn.timed_out(14_001));
    assert!(matches!(conn.on_event(Event::Tick, 14_000), Action::Ping));
    assert!(conn.is_open());
}

#[test]
fn tick_pings_while_the_peer_is_heard() {
    let mut conn = Connection::new(5, 7, 1, 1_000);
    assert!(matches!(conn.on_event(Event::Tick, 1_000), Action::Ping));
    assert!(matches!(conn.on_event(Event::Tick, 6_000), Action::Ping));
    // exactly the timeout is not yet longer than the timeout
    assert!(matches!(conn.on_event(Event::Tick, 11_000), Action::Ping));
    assert!(conn.is_open());
}

#[test]
fn silence_longer_than_the_timeout_ends_the_connection_once() {
    let mut conn = Connection::new(5, 7, 1, 1_000);
    assert!(matches!(conn.on_event(Event::Tick, 6_000), Action::Ping));
    match conn.on_event(Event::Tick, 11_001) {
        Action::Disconnect { room, conn, user_type, reason } => {
            assert_eq!(room, 5);
            assert_eq!(conn, 7);
            assert_eq!(user_type, 1);
            assert!(reason.is_none());
        }
        other => panic!("unexpected action {:?}", other),
    }
    assert!(!conn.is_open());
    // whatever comes after, the caller is not told to deregister again
    assert!(matches!(conn.on_event(Event::Tick, 16_000), Action::Continue));
    assert!(matches!(conn.on_event(Event::StreamEnded, 16_001), Action::Continue));
    assert!(matches!(conn.on_event(Event::Close(None), 16_002), Action::Continue));
    assert!(matches!(conn.on_event(Event::WriteFailed, 16_003), Action::Continue));
    assert!(matches!(conn.on_event(Event::Ping(vec![9]), 16_004), Action::Continue));
    assert!(matches!(conn.on_event(Event::RoomUpdate("x".to_string()), 16_005), Action::Continue));
    assert!(matches!(conn.on_event(text_event("x", None), 16_006), Action::Continue));
    assert!(!conn.is_open());
}

#[test]
fn traffic_other_than_ping_and_pong_is_no_heartbeat() {
    let mut conn = Connection::new(5, 7, 1, 0);
    assert!(matches!(conn.on_event(text_event("hello", None), 9_000), Action::Forward(_)));
    assert!(matches!(conn.on_event(Event::Binary, 9_500), Action::Continue));
    assert!(matches!(conn.on_event(Event::RoomUpdate("x".to_string()), 9_900), Action::Text(_)));
    assert!(matches!(conn.on_event(Event::StreamError, 9_950), Action::Continue));
    assert!(matches!(conn.on_event(Event::Tick, 10_001), Action::Disconnect { .. }));
}

#[test]
fn a_clock_that_runs_backwards_is_no_silence() {
    let mut conn = Connection::new(5, 7, 1, 50_000);
    assert!(!conn.timed_out(0));
    assert!(matches!(conn.on_event(Event::Tick, 0), Action::Ping));
    assert!(conn.is_open());
}

#[test]
fn timeout_near_the_end_of_time_does_not_wrap() {
    let conn = Connection::new(5, 7, 1, u64::MAX - 10_000);
    assert!(!conn.timed_out(u64::MAX));
    let conn = Connection::new(5, 7, 1, u64::MAX - 10_001);
    assert!(conn.timed_out(u64::MAX));
    let conn = Connection::new(5, 7, 1, 0);
    assert!(conn.timed_out(u64::MAX));
}

#[test]
fn close_frame_ends_the_connection_with_its_reason() {
    let mut conn = Connection::new(5, 0, 0, 0);
    let reason = CloseReason { code: 1000, description: Some("bye".to_string()) };
    match conn.on_event(Event::Close(Some(reason)), 10) {
        Action::Disconnect { room, conn, user_type, reason } => {
            assert_eq!((room, conn, user_type), (5, 0, 0));
            let reason = reason.unwrap();
            assert_eq!(reason.code, 1000);
            assert_eq!(reason.description.as_deref(), Some("bye"));
        }
        other => panic!("unexpected action {:?}", other),
    }
    assert!(!conn.is_open());
}

#[test]
fn close_frame_without_a_reason_ends_the_connection() {
    let mut conn = Connection::new(5, 7, 1, 0);
    assert!(matches!(
        conn.on_event(Event::Close(None), 10),
        Action::Disconnect { room: 5, conn: 7, user_type: 1, reason: None }
    ));
    assert!(!conn.is_open());
}

#[test]
fn end_of_stream_ends_the_connection_without_a_reason() {
    let mut conn = Connection::new(5, 7, 1, 0);
    assert!(matches!(
        conn.on_event(Event::StreamEnded, 10),
        Action::Disconnect { room: 5, conn: 7, user_type: 1, reason: None }
    ));
    assert!(!conn.is_open());
}

#[test]
fn failed_write_ends_the_connection_without_a_reason() {
    let mut conn = Connection::new(5, 7, 1, 0);
    assert!(matches!(
        conn.on_event(Event::WriteFailed, 10),
        Action::Disconnect { room: 5, conn: 7, user_type: 1, reason: None }
    ));
    assert!(!conn.is_open());
    assert!(matches!(conn.on_event(Event::WriteFailed, 11), Action::Continue));
}

#[test]
fn binary_frame_and_stream_error_keep_the_connection_open() {
    let mut conn = Connection::new(5, 7, 1, 0);
    assert!(matches!(conn.on_event(Event::Binary, 10), Action::Continue));
    assert!(matches!(conn.on_event(Event::StreamError, 11), Action::Continue));
    assert!(conn.is_open());
}

#[test]
fn room_update_goes_to_the_peer_as_it_is() {
    let mut conn = Connection::new(5, 7, 1, 0);
    match conn.on_event(Event::RoomUpdate("{\"type\":\"start\"}".to_string()), 10) {
        Action::Text(text) => assert_eq!(text, "{\"type\":\"start\"}"),
        other => panic!("unexpected action {:?}", other),
    }
}

#[test]
fn request_id_is_answered_to_the_peer_alone() {
    let mut conn = Connection::new(5, 4711, 1, 0);
    match conn.on_event(text_event("{\"type\":\"request_id\"}", Some("request_id")), 10) {
        Action::Text(text) => assert_eq!(text, "{\"type\":\"id\",\"conn_id\":4711}"),
        other => panic!("unexpected action {:?}", other),
    }
    assert!(conn.is_open());
}

#[test]
fn request_id_of_the_host_answers_zero() {
    let mut conn = Connection::new(5, 0, 0, 0);
    match conn.on_event(text_event("{\"type\":\"request_id\"}", Some("request_id")), 10) {
        Action::Text(text) => assert_eq!(text, "{\"type\":\"id\",\"conn_id\":0}"),
        other => panic!("unexpected action {:?}", other),
    }
}

#[test]
fn text_of_another_type_is_forwarded_unchanged() {
    let mut conn = Connection::new(5, 7, 1, 0);
    let raw = "{\"type\":\"mark\",\"cell\":12}";
    match conn.on_event(text_event(raw, Some("mark")), 10) {
        Action::Forward(text) => assert_eq!(text, raw),
        other => panic!("unexpected action {:?}", other),
    }
    // the type is compared as a whole and by case
    for kind in ["request_id ", "Request_id", "request", "id", ""] {
        assert!(matches!(conn.on_event(text_event(raw, Some(kind)), 11), Action::Forward(_)));
    }
}

#[test]
fn text_that_is_no_envelope_is_forwarded_unchanged() {
    let mut conn = Connection::new(5, 7, 1, 0);
    match conn.on_event(text_event("not json at all", None), 10) {
        Action::Forward(text) => assert_eq!(text, "not json at all"),
        other => panic!("unexpected action {:?}", other),
    }
    // only the envelope decides, not the raw text
    assert!(matches!(
        conn.on_event(text_event("{\"type\":\"request_id\"}", None), 11),
        Action::Forward(_)
    ));
    assert!(conn.is_open());
}

#[test]
fn a_closed_outbound_channel_ends_the_connection_without_a_reason() {
    let mut conn = Connection::new(5, 0, 0, 0);
    assert!(matches!(
        conn.on_event(Event::PipeClosed, 10),
        Action::Disconnect { room: 5, conn: 0, user_type: 0, reason: None }
    ));
    assert!(!conn.is_open());
    assert!(matches!(conn.on_event(Event::PipeClosed, 11), Action::Continue));
    assert!(matches!(conn.on_event(Event::Tick, 20_000), Action::Continue));
}
