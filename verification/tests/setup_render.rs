use hotline::msg::{ChatMessage, Config, Message, MessageKind, SerializableColor, SystemEvent,
    TextLine, log_line, make_message};
use hotline::render::{handle_system_event, print_chat_message_to_output,
    print_textline_to_output};
use hotline::setup::{parse_connect_request, parse_start_command, ConnectError};
use hotline::text::{parse_u16, u64_text};

#[test]
fn connect_request_is_parsed() {
    let c = parse_connect_request("CONNECT:example.org:9000:Alice").unwrap();
    assert_eq!(c.host, "example.org");
    assert_eq!(c.port, "9000");
    assert_eq!(c.username, "Alice");
}

#[test]
fn connect_username_may_be_empty() {
    let c = parse_connect_request("CONNECT:example.org:9000:").unwrap();
    assert_eq!(c.username, "");
}

#[test]
fn connect_extra_pieces_are_ignored() {
    let c = parse_connect_request("CONNECT:h:80:a:b").unwrap();
    assert_eq!(c.username, "a");
}

#[test]
fn connect_wrong_keyword_is_bad_format() {
    assert_eq!(parse_connect_request("HELLO:h:80:a").unwrap_err(), ConnectError::BadFormat);
    assert_eq!(parse_connect_request("CONNECT").unwrap_err(), ConnectError::BadFormat);
}

#[test]
fn connect_too_few_pieces_is_missing_parts() {
    assert_eq!(parse_connect_request("CONNECT:h:80").unwrap_err(), ConnectError::MissingParts);
}

#[test]
fn start_command_is_parsed() {
    let s = parse_start_command("START:lobby:9000:yes").unwrap();
    assert_eq!(s.room, "lobby");
    assert_eq!(s.port, 9000);
    assert!(s.logging);
}

#[test]
fn start_logging_flag_ignores_case() {
    assert!(parse_start_command("START:r:1:YES").unwrap().logging);
    assert!(parse_start_command("START:r:1:Yes").unwrap().logging);
    assert!(!parse_start_command("START:r:1:no").unwrap().logging);
    assert!(!parse_start_command("START:r:1:yess").unwrap().logging);
}

#[test]
fn start_bad_port_falls_back_to_default() {
    assert_eq!(parse_start_command("START:r:notaport:no").unwrap().port, 8080);
    assert_eq!(parse_start_command("START:r:70000:no").unwrap().port, 8080);
}

#[test]
fn start_other_lines_are_ignored() {
    assert!(parse_start_command("GO:r:1:yes").is_none());
    assert!(parse_start_command("START:r:1").is_none());
}

#[test]
fn u16_parsing_matches_the_standard_reading() {
    let cases: &[(&str, Option<u16>)] = &[
        ("0", Some(0)),
        ("8080", Some(8080)),
        ("65535", Some(65535)),
        ("+123", Some(123)),
        ("65536", None),
        ("", None),
        ("+", None),
        ("12a", None),
        ("-1", None),
    ];
    for (text, want) in cases {
        let chars: Vec<char> = text.chars().collect();
        assert_eq!(parse_u16(&chars), *want, "input {:?}", text);
    }
}

#[test]
fn textline_rendering_appends_the_line_break() {
    let line = TextLine {
        text: "hello".to_string(),
        color: Some(SerializableColor { r: 1, g: 2, b: 3 }),
    };
    let (text, color) = print_textline_to_output(&line);
    assert_eq!(text, "hello\n");
    assert_eq!(color, Some(SerializableColor { r: 1, g: 2, b: 3 }));
}

#[test]
fn chat_rendering_labels_remote_messages() {
    let m = ChatMessage {
        content: "hi".to_string(),
        sender: "1.2.3.4:5".to_string(),
        username: Some("Alice".to_string()),
        timestamp: "12:00:00".to_string(),
        is_self: false,
    };
    let spans = print_chat_message_to_output(&m);
    assert_eq!(spans.len(), 3);
    assert_eq!(spans[0].0, "[12:00:00] ");
    assert_eq!(spans[1].0, "Alice: ");
    assert_eq!(spans[2].0, "hi\n");
}

#[test]
fn chat_rendering_says_you_for_own_messages() {
    let m = ChatMessage {
        content: "hi".to_string(),
        sender: "1.2.3.4:5".to_string(),
        username: Some("Alice".to_string()),
        timestamp: "t".to_string(),
        is_self: true,
    };
    assert_eq!(print_chat_message_to_output(&m)[1].0, "You: ");
}

#[test]
fn chat_rendering_falls_back_to_the_identity() {
    let m = ChatMessage {
        content: "hi".to_string(),
        sender: "1.2.3.4:5".to_string(),
        username: None,
        timestamp: "t".to_string(),
        is_self: false,
    };
    assert_eq!(print_chat_message_to_output(&m)[1].0, "1.2.3.4:5: ");
}

#[test]
fn system_events_render_their_notices() {
    let l = handle_system_event(&SystemEvent::ConnectionEstablished {
        address: "1.2.3.4:5".to_string(),
    });
    assert_eq!(l.text, "Connected as 1.2.3.4:5");
    assert_eq!(l.color, Some(SerializableColor { r: 0, g: 255, b: 0 }));
    let l = handle_system_event(&SystemEvent::ConnectionClosed);
    assert_eq!(l.text, "Server closed the connection.");
    let l = handle_system_event(&SystemEvent::ConnectionError { message: "boom".to_string() });
    assert_eq!(l.text, "Error: boom");
    assert_eq!(l.color, Some(SerializableColor { r: 255, g: 0, b: 0 }));
}

#[test]
fn rate_limit_notice_shows_tenths_of_seconds() {
    let l = handle_system_event(&SystemEvent::RateLimit { remaining_ms: 9_510 });
    assert_eq!(l.text, "You are on timeout for 9.5 more seconds");
    let l = handle_system_event(&SystemEvent::RateLimit { remaining_ms: 10_000 });
    assert_eq!(l.text, "You are on timeout for 10.0 more seconds");
    let l = handle_system_event(&SystemEvent::RateLimit { remaining_ms: 40 });
    assert_eq!(l.text, "You are on timeout for 0.0 more seconds");
}

#[test]
fn numbers_render_in_decimal() {
    let cases: &[(u64, &str)] = &[(0, "0"), (7, "7"), (10, "10"), (12034, "12034")];
    for (n, want) in cases {
        assert_eq!(u64_text(*n), *want);
    }
}

#[test]
fn log_line_is_exact() {
    let m = Message {
        kind: MessageKind::Chat,
        content: "hello".to_string(),
        sender: "1.2.3.4:5".to_string(),
        username: Some("Alice".to_string()),
        timestamp: "2024-01-01T00:00:00Z".to_string(),
    };
    assert_eq!(log_line(&m), "[2024-01-01T00:00:00Z] 1.2.3.4:5: hello");
}

#[test]
fn stamped_messages_carry_a_real_utc_timestamp() {
    let m = make_message(
        MessageKind::Chat,
        "hi".to_string(),
        "1.2.3.4:5".to_string(),
        Some("Alice".to_string()),
    );
    assert_eq!(m.content, "hi");
    assert_eq!(m.sender, "1.2.3.4:5");
    assert_eq!(m.username.as_deref(), Some("Alice"));
    assert!(chrono::DateTime::parse_from_rfc3339(&m.timestamp).is_ok());
}

#[test]
fn config_defaults_match_the_protocol() {
    let c = Config::default();
    assert_eq!(c.default_port, 8080);
    assert_eq!(c.message_buffer_size, 100);
    assert!(c.max_connections > 0);
}

#[test]
fn messages_clone_field_for_field() {
    let m = Message {
        kind: MessageKind::Join,
        content: "c".to_string(),
        sender: "s".to_string(),
        username: None,
        timestamp: "t".to_string(),
    };
    let d = m.clone();
    assert!(matches!(d.kind, MessageKind::Join));
    assert_eq!(d.content, m.content);
    assert_eq!(d.sender, m.sender);
    assert_eq!(d.username, m.username);
    assert_eq!(d.timestamp, m.timestamp);
}
