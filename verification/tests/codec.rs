use hotline::codec::{decode_frame, encode_frame, Frame};
use hotline::msg::{Message, MessageKind};

fn chat(content: &str, sender: &str, username: Option<&str>, ts: &str) -> Message {
    Message {
        kind: MessageKind::Chat,
        content: content.to_string(),
        sender: sender.to_string(),
        username: username.map(|u| u.to_string()),
        timestamp: ts.to_string(),
    }
}

#[test]
fn decode_chat_frame() {
    let line = "{\"content\":\"hi\",\"sender\":\"1.2.3.4:5\",\"username\":\"Alice\",\"timestamp\":\"2024-01-01T00:00:00Z\"}";
    match decode_frame(line) {
        Frame::Broadcast { content, sender, username, timestamp } => {
            assert_eq!(content, "hi");
            assert_eq!(sender, "1.2.3.4:5");
            assert_eq!(username.as_deref(), Some("Alice"));
            assert_eq!(timestamp, "2024-01-01T00:00:00Z");
        }
        _ => panic!("expected a broadcast frame"),
    }
}

#[test]
fn decode_null_username() {
    let line = "{\"content\":\"x\",\"sender\":\"s\",\"username\":null,\"timestamp\":\"t\"}";
    match decode_frame(line) {
        Frame::Broadcast { username, .. } => assert!(username.is_none()),
        _ => panic!("expected a broadcast frame"),
    }
}

#[test]
fn decode_field_order_does_not_matter() {
    let line = "{ \"timestamp\" : \"t\" , \"sender\" : \"s\" , \"content\" : \"x\" }";
    match decode_frame(line) {
        Frame::Broadcast { content, sender, username, timestamp } => {
            assert_eq!(content, "x");
            assert_eq!(sender, "s");
            assert!(username.is_none());
            assert_eq!(timestamp, "t");
        }
        _ => panic!("expected a broadcast frame"),
    }
}

#[test]
fn decode_truncated_json_is_text() {
    let line = "{\"content\":\"hi\", ";
    match decode_frame(line) {
        Frame::Text(s) => assert_eq!(s, "{\"content\":\"hi\","),
        _ => panic!("a truncated frame must come through as text"),
    }
}

#[test]
fn decode_unknown_key_is_text() {
    let line = "{\"content\":\"a\",\"sender\":\"s\",\"timestamp\":\"t\",\"extra\":\"e\"}";
    assert!(matches!(decode_frame(line), Frame::Text(_)));
}

#[test]
fn decode_duplicate_key_is_text() {
    let line = "{\"info\":\"a\",\"info\":\"b\"}";
    assert!(matches!(decode_frame(line), Frame::Text(_)));
}

#[test]
fn decode_missing_field_is_text() {
    let line = "{\"content\":\"a\",\"sender\":\"s\"}";
    assert!(matches!(decode_frame(line), Frame::Text(_)));
}

#[test]
fn decode_info_frame() {
    match decode_frame("{\"info\": \"Connected to chatroom 'lobby'\"}\n") {
        Frame::Info(s) => assert_eq!(s, "Connected to chatroom 'lobby'"),
        _ => panic!("expected an info frame"),
    }
}

#[test]
fn decode_error_frame() {
    match decode_frame("{\"error\":\"Invalid username command\"}") {
        Frame::Error(s) => assert_eq!(s, "Invalid username command"),
        _ => panic!("expected an error frame"),
    }
}

#[test]
fn decode_plain_text_line() {
    match decode_frame("  hello there \n") {
        Frame::Text(s) => assert_eq!(s, "hello there"),
        _ => panic!("expected text"),
    }
}

#[test]
fn decode_empty_line_is_empty_text() {
    match decode_frame("   \n") {
        Frame::Text(s) => assert_eq!(s, ""),
        _ => panic!("expected text"),
    }
}

#[test]
fn decode_escapes() {
    let line = "{\"info\":\"a\\nb\\\"c\\\\d\\u0007e\\tf\\/g\"}";
    match decode_frame(line) {
        Frame::Info(s) => assert_eq!(s, "a\nb\"c\\d\u{0007}e\tf/g"),
        _ => panic!("expected an info frame"),
    }
}

#[test]
fn decode_bad_escape_is_text() {
    assert!(matches!(decode_frame("{\"info\":\"a\\qb\"}"), Frame::Text(_)));
}

#[test]
fn decode_raw_control_char_is_text() {
    assert!(matches!(decode_frame("{\"info\":\"a\u{0001}b\"}"), Frame::Text(_)));
}

#[test]
fn encode_chat_frame_exact() {
    let m = chat("hi", "1.2.3.4:5", Some("Alice"), "2024-01-01T00:00:00Z");
    assert_eq!(
        encode_frame(&m),
        "{\"content\":\"hi\",\"sender\":\"1.2.3.4:5\",\"username\":\"Alice\",\"timestamp\":\"2024-01-01T00:00:00Z\"}"
    );
}

#[test]
fn encode_without_username_writes_null() {
    let m = chat("x", "s", None, "t");
    assert_eq!(
        encode_frame(&m),
        "{\"content\":\"x\",\"sender\":\"s\",\"username\":null,\"timestamp\":\"t\"}"
    );
}

#[test]
fn encode_info_frame_exact() {
    let m = Message {
        kind: MessageKind::Info,
        content: "Username set to 'Alice'".to_string(),
        sender: "s".to_string(),
        username: Some("Alice".to_string()),
        timestamp: "t".to_string(),
    };
    assert_eq!(encode_frame(&m), "{\"info\":\"Username set to 'Alice'\"}");
}

#[test]
fn encode_error_frame_exact() {
    let m = Message {
        kind: MessageKind::Error,
        content: "Invalid username command".to_string(),
        sender: "s".to_string(),
        username: None,
        timestamp: "t".to_string(),
    };
    assert_eq!(encode_frame(&m), "{\"error\":\"Invalid username command\"}");
}

#[test]
fn encode_escaping_exact() {
    let m = chat("a\"b\\c\nd\u{0001}e", "s", None, "t");
    assert_eq!(
        encode_frame(&m),
        "{\"content\":\"a\\\"b\\\\c\\nd\\u0001e\",\"sender\":\"s\",\"username\":null,\"timestamp\":\"t\"}"
    );
}

#[test]
fn round_trip_chat_frame() {
    let m = chat("tabs\tand \"quotes\" and \\slashes\\ and\nnewlines\u{0002}", "9.8.7.6:1", Some("Bob"), "ts");
    match decode_frame(&encode_frame(&m)) {
        Frame::Broadcast { content, sender, username, timestamp } => {
            assert_eq!(content, m.content);
            assert_eq!(sender, m.sender);
            assert_eq!(username, m.username);
            assert_eq!(timestamp, m.timestamp);
        }
        _ => panic!("expected a broadcast frame back"),
    }
}

#[test]
fn round_trip_private_frames() {
    let info = Message {
        kind: MessageKind::Info,
        content: "a'b\"c".to_string(),
        sender: "s".to_string(),
        username: None,
        timestamp: "t".to_string(),
    };
    match decode_frame(&encode_frame(&info)) {
        Frame::Info(s) => assert_eq!(s, "a'b\"c"),
        _ => panic!("expected info back"),
    }
    let err = Message { kind: MessageKind::Error, ..info };
    match decode_frame(&encode_frame(&err)) {
        Frame::Error(s) => assert_eq!(s, "a'b\"c"),
        _ => panic!("expected error back"),
    }
}

#[test]
fn round_trip_join_and_leave() {
    for kind in [MessageKind::Join, MessageKind::Leave] {
        let m = Message {
            kind,
            content: "Alice has joined the chat".to_string(),
            sender: "1.1.1.1:2".to_string(),
            username: Some("Alice".to_string()),
            timestamp: "t".to_string(),
        };
        assert!(matches!(decode_frame(&encode_frame(&m)), Frame::Broadcast { .. }));
    }
}
