use hotline::client::{client_send, process_server_line, OutboundAction};
use hotline::codec::encode_frame;
use hotline::limiter::RateLimiter;
use hotline::msg::{Message, MessageKind, OutputEvent, SerializableColor, SystemEvent};

fn me() -> String {
    "192.168.0.7:4242".to_string()
}

fn reflected(sender: &str) -> String {
    let m = Message {
        kind: MessageKind::Chat,
        content: "hi".to_string(),
        sender: sender.to_string(),
        username: Some("Alice".to_string()),
        timestamp: "t".to_string(),
    };
    encode_frame(&m)
}

#[test]
fn own_reflection_is_suppressed() {
    let me = me();
    let line = reflected(&me);
    assert!(process_server_line(&line, &me).is_none());
}

#[test]
fn remote_broadcast_is_rendered_once_as_remote() {
    let line = reflected("10.0.0.2:9");
    match process_server_line(&line, &me()) {
        Some(OutputEvent::ChatMessage(m)) => {
            assert!(!m.is_self);
            assert_eq!(m.content, "hi");
            assert_eq!(m.sender, "10.0.0.2:9");
            assert_eq!(m.username.as_deref(), Some("Alice"));
        }
        _ => panic!("expected a remote chat message"),
    }
}

#[test]
fn display_name_does_not_fool_the_echo_filter() {
    // A remote peer may carry any display name, even this client's
    // own; only the canonical identity decides.
    let m = Message {
        kind: MessageKind::Chat,
        content: "x".to_string(),
        sender: "10.9.9.9:1".to_string(),
        username: Some(me()),
        timestamp: "t".to_string(),
    };
    assert!(process_server_line(&encode_frame(&m), &me()).is_some());
}

#[test]
fn info_frame_becomes_plain_line() {
    match process_server_line("{\"info\":\"Connected to chatroom 'lobby'\"}", &me()) {
        Some(OutputEvent::TextLine(l)) => {
            assert_eq!(l.text, "Connected to chatroom 'lobby'");
            assert!(l.color.is_none());
        }
        _ => panic!("expected a text line"),
    }
}

#[test]
fn error_frame_becomes_red_line() {
    match process_server_line("{\"error\":\"Invalid username command\"}", &me()) {
        Some(OutputEvent::TextLine(l)) => {
            assert_eq!(l.text, "Invalid username command");
            assert_eq!(l.color, Some(SerializableColor { r: 255, g: 0, b: 0 }));
        }
        _ => panic!("expected a red text line"),
    }
}

#[test]
fn garbage_brace_line_is_delivered_as_text() {
    match process_server_line("{\"content\":\"hi\", \n", &me()) {
        Some(OutputEvent::TextLine(l)) => assert_eq!(l.text, "{\"content\":\"hi\","),
        _ => panic!("a truncated frame must still reach the display"),
    }
}

#[test]
fn quit_command_quits() {
    let mut lim = RateLimiter::new();
    assert!(matches!(
        client_send(&mut lim, &me(), "  /quit \n", 0, &"t".to_string()),
        OutboundAction::Quit
    ));
    assert!(lim.window_times().is_empty());
}

#[test]
fn empty_input_does_nothing() {
    let mut lim = RateLimiter::new();
    assert!(matches!(
        client_send(&mut lim, &me(), "   \n", 0, &"t".to_string()),
        OutboundAction::Nothing
    ));
    assert!(lim.window_times().is_empty());
}

#[test]
fn accepted_send_echoes_as_you() {
    let mut lim = RateLimiter::new();
    match client_send(&mut lim, &me(), " hello \n", 5, &"12:00:00".to_string()) {
        OutboundAction::Send { payload, echo } => {
            assert_eq!(payload, "hello");
            assert!(echo.is_self);
            assert_eq!(echo.content, "hello");
            assert_eq!(echo.sender, me());
            assert_eq!(echo.username.as_deref(), Some("You"));
            assert_eq!(echo.timestamp, "12:00:00");
        }
        _ => panic!("expected an accepted send"),
    }
}

#[test]
fn burst_send_is_throttled_then_cooled() {
    let mut lim = RateLimiter::new();
    let ts = "t".to_string();
    for k in 0..10u64 {
        assert!(matches!(
            client_send(&mut lim, &me(), "spam", k, &ts),
            OutboundAction::Send { .. }
        ));
    }
    match client_send(&mut lim, &me(), "spam", 10, &ts) {
        OutboundAction::Throttled(l) => {
            assert_eq!(l.text, "You are sending messages too fast! Timeout for 10 seconds.");
            assert_eq!(l.color, Some(SerializableColor { r: 255, g: 0, b: 0 }));
        }
        _ => panic!("the eleventh burst send must be throttled"),
    }
    match client_send(&mut lim, &me(), "spam", 1_000, &ts) {
        OutboundAction::Notify(SystemEvent::RateLimit { remaining_ms }) => {
            assert_eq!(remaining_ms, 9_010);
        }
        _ => panic!("sends during cooldown must report the remaining time"),
    }
}
