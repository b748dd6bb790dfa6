use hotline::broadcast::{Broadcaster, RecvOutcome};
use hotline::handler::{on_disconnect, on_line, HandlerState, LineOutcome};
use hotline::msg::{Message, MessageKind};
use hotline::registry::Registry;
use hotline::room::Room;

fn ts() -> String {
    "2024-01-01T00:00:00Z".to_string()
}

fn ident() -> String {
    "1.2.3.4:5".to_string()
}

fn chat(content: &str) -> Message {
    Message {
        kind: MessageKind::Chat,
        content: content.to_string(),
        sender: ident(),
        username: None,
        timestamp: ts(),
    }
}

#[test]
fn registry_set_get_remove() {
    let mut reg = Registry::new();
    let a = "10.0.0.1:1".to_string();
    let b = "10.0.0.2:2".to_string();
    assert!(reg.get(&a).is_none());
    reg.set(&a, "Alice".to_string());
    reg.set(&b, "Bob".to_string());
    assert_eq!(reg.get(&a).as_deref(), Some("Alice"));
    assert_eq!(reg.get(&b).as_deref(), Some("Bob"));
    assert_eq!(reg.remove(&a).as_deref(), Some("Alice"));
    assert!(reg.get(&a).is_none());
    assert!(reg.remove(&a).is_none());
    assert_eq!(reg.get(&b).as_deref(), Some("Bob"));
}

#[test]
fn registry_set_overwrites() {
    let mut reg = Registry::new();
    let a = "10.0.0.1:1".to_string();
    reg.set(&a, "Alice".to_string());
    reg.set(&a, "Alicia".to_string());
    assert_eq!(reg.get(&a).as_deref(), Some("Alicia"));
}

#[test]
fn registry_allows_duplicate_names() {
    let mut reg = Registry::new();
    let a = "10.0.0.1:1".to_string();
    let b = "10.0.0.2:2".to_string();
    reg.set(&a, "Alice".to_string());
    reg.set(&b, "Alice".to_string());
    assert_eq!(reg.get(&a).as_deref(), Some("Alice"));
    assert_eq!(reg.get(&b).as_deref(), Some("Alice"));
}

#[test]
fn name_set_command_acknowledges_and_joins() {
    let mut state = HandlerState::Connected;
    let id = ident();
    match on_line(&mut state, &id, "/username:Alice\n", &ts()) {
        LineOutcome::NameSet { ack, join } => {
            assert!(matches!(ack.kind, MessageKind::Info));
            assert_eq!(ack.content, "Username set to 'Alice'");
            assert!(matches!(join.kind, MessageKind::Join));
            assert_eq!(join.content, "Alice has joined the chat");
            assert_eq!(join.sender, id);
            assert_eq!(join.username.as_deref(), Some("Alice"));
        }
        _ => panic!("expected a name-set outcome"),
    }
    assert!(matches!(state, HandlerState::Named(ref n) if n == "Alice"));
}

#[test]
fn name_argument_is_trimmed() {
    let mut state = HandlerState::Connected;
    match on_line(&mut state, &ident(), "/username:  Alice  ", &ts()) {
        LineOutcome::NameSet { join, .. } => {
            assert_eq!(join.username.as_deref(), Some("Alice"));
        }
        _ => panic!("expected a name-set outcome"),
    }
}

#[test]
fn empty_name_command_draws_an_error() {
    let mut state = HandlerState::Connected;
    match on_line(&mut state, &ident(), "/username:   \n", &ts()) {
        LineOutcome::BadName { error } => {
            assert!(matches!(error.kind, MessageKind::Error));
            assert_eq!(error.content, "Invalid username command");
        }
        _ => panic!("expected a bad-name outcome"),
    }
    assert!(matches!(state, HandlerState::Connected));
}

#[test]
fn chat_line_carries_identity_and_name() {
    let mut state = HandlerState::Named("Alice".to_string());
    let id = ident();
    match on_line(&mut state, &id, "hello all\n", &ts()) {
        LineOutcome::Chat { msg } => {
            assert!(matches!(msg.kind, MessageKind::Chat));
            assert_eq!(msg.content, "hello all");
            assert_eq!(msg.sender, id);
            assert_eq!(msg.username.as_deref(), Some("Alice"));
        }
        _ => panic!("expected a chat outcome"),
    }
}

#[test]
fn unnamed_chat_has_no_username() {
    let mut state = HandlerState::Connected;
    match on_line(&mut state, &ident(), "hi", &ts()) {
        LineOutcome::Chat { msg } => assert!(msg.username.is_none()),
        _ => panic!("expected a chat outcome"),
    }
}

#[test]
fn empty_line_is_ignored() {
    let mut state = HandlerState::Connected;
    assert!(matches!(on_line(&mut state, &ident(), "   \n", &ts()), LineOutcome::Ignored));
}

#[test]
fn named_disconnect_yields_one_leave() {
    let mut state = HandlerState::Named("Alice".to_string());
    let leave = on_disconnect(&mut state, &ident(), &ts());
    let m = leave.expect("a named connection must announce its leave");
    assert!(matches!(m.kind, MessageKind::Leave));
    assert_eq!(m.content, "Alice has left the chat");
    assert_eq!(m.username.as_deref(), Some("Alice"));
    assert!(matches!(state, HandlerState::Closed));
}

#[test]
fn unnamed_disconnect_yields_no_leave() {
    let mut state = HandlerState::Connected;
    assert!(on_disconnect(&mut state, &ident(), &ts()).is_none());
    assert!(matches!(state, HandlerState::Closed));
}

#[test]
fn broadcast_reaches_every_subscriber() {
    let mut b = Broadcaster::new(100);
    let s1 = b.subscribe();
    let s2 = b.subscribe();
    let s3 = b.subscribe();
    b.publish(&chat("hello"));
    for id in [s1, s2, s3] {
        match b.recv(id) {
            RecvOutcome::Message(m) => assert_eq!(m.content, "hello"),
            _ => panic!("every subscriber must see the message"),
        }
        assert!(matches!(b.recv(id), RecvOutcome::Empty));
    }
}

#[test]
fn broadcast_keeps_publish_order_per_subscriber() {
    let mut b = Broadcaster::new(100);
    let s = b.subscribe();
    b.publish(&chat("one"));
    b.publish(&chat("two"));
    b.publish(&chat("three"));
    for want in ["one", "two", "three"] {
        match b.recv(s) {
            RecvOutcome::Message(m) => assert_eq!(m.content, want),
            _ => panic!("expected a message"),
        }
    }
}

#[test]
fn slow_subscriber_lags_and_resumes() {
    let mut b = Broadcaster::new(2);
    let s = b.subscribe();
    b.publish(&chat("one"));
    b.publish(&chat("two"));
    b.publish(&chat("three"));
    assert!(matches!(b.recv(s), RecvOutcome::Lagged(1)));
    match b.recv(s) {
        RecvOutcome::Message(m) => assert_eq!(m.content, "two"),
        _ => panic!("expected the oldest retained message"),
    }
    match b.recv(s) {
        RecvOutcome::Message(m) => assert_eq!(m.content, "three"),
        _ => panic!("expected the newest message"),
    }
    assert!(matches!(b.recv(s), RecvOutcome::Empty));
}

#[test]
fn subscriber_sees_only_messages_after_subscribing() {
    let mut b = Broadcaster::new(100);
    let early = b.subscribe();
    b.publish(&chat("old"));
    let late = b.subscribe();
    b.publish(&chat("new"));
    match b.recv(early) {
        RecvOutcome::Message(m) => assert_eq!(m.content, "old"),
        _ => panic!("expected the first message"),
    }
    match b.recv(late) {
        RecvOutcome::Message(m) => assert_eq!(m.content, "new"),
        _ => panic!("a late subscriber must not replay history"),
    }
    assert!(matches!(b.recv(late), RecvOutcome::Empty));
}

#[test]
fn room_name_set_reaches_all_other_subscribers() {
    let mut room = Room::new(100);
    let alice = "10.0.0.1:1".to_string();
    let alice_sub = room.subscribe();
    let bob_sub = room.subscribe();
    let mut state = HandlerState::Connected;
    let reply = room.on_line(&mut state, &alice, "/username:Alice\n", &ts());
    let ack = reply.expect("the originator gets a private acknowledgement");
    assert!(matches!(ack.kind, MessageKind::Info));
    assert_eq!(ack.content, "Username set to 'Alice'");
    // The Join broadcast is visible to every subscription, the
    // originator's own included: suppression is a client concern.
    for id in [alice_sub, bob_sub] {
        match room.recv(id) {
            RecvOutcome::Message(m) => {
                assert!(matches!(m.kind, MessageKind::Join));
                assert_eq!(m.username.as_deref(), Some("Alice"));
                assert_eq!(m.sender, alice);
            }
            _ => panic!("expected the join broadcast"),
        }
    }
    assert_eq!(room.name_of(&alice).as_deref(), Some("Alice"));
}

#[test]
fn room_chat_is_fanned_out() {
    let mut room = Room::new(100);
    let alice = "10.0.0.1:1".to_string();
    let mut state = HandlerState::Named("Alice".to_string());
    let s1 = room.subscribe();
    let s2 = room.subscribe();
    assert!(room.on_line(&mut state, &alice, "hello\n", &ts()).is_none());
    for id in [s1, s2] {
        match room.recv(id) {
            RecvOutcome::Message(m) => {
                assert_eq!(m.content, "hello");
                assert_eq!(m.sender, alice);
            }
            _ => panic!("expected the chat broadcast"),
        }
    }
}

#[test]
fn room_named_disconnect_broadcasts_one_leave() {
    let mut room = Room::new(100);
    let alice = "10.0.0.1:1".to_string();
    let watcher = room.subscribe();
    let mut state = HandlerState::Connected;
    room.on_line(&mut state, &alice, "/username:Alice", &ts());
    match room.recv(watcher) {
        RecvOutcome::Message(m) => assert!(matches!(m.kind, MessageKind::Join)),
        _ => panic!("expected the join broadcast"),
    }
    room.on_disconnect(&mut state, &alice, &ts());
    match room.recv(watcher) {
        RecvOutcome::Message(m) => {
            assert!(matches!(m.kind, MessageKind::Leave));
            assert_eq!(m.content, "Alice has left the chat");
        }
        _ => panic!("expected the leave broadcast"),
    }
    assert!(matches!(room.recv(watcher), RecvOutcome::Empty));
    assert!(room.name_of(&alice).is_none());
    assert!(matches!(state, HandlerState::Closed));
}

#[test]
fn room_unnamed_disconnect_broadcasts_nothing() {
    let mut room = Room::new(100);
    let ghost_conn = "10.0.0.9:9".to_string();
    let watcher = room.subscribe();
    let mut state = HandlerState::Connected;
    room.on_disconnect(&mut state, &ghost_conn, &ts());
    assert!(matches!(room.recv(watcher), RecvOutcome::Empty));
}
