//! Data model of the chat core: messages, display lines and events.
//!
//! A [`Message`] is immutable once constructed. Its `sender` field always
//! holds the canonical connection identity (the transport-level peer
//! address as text), never the display name; `username` is decoration
//! only. The timestamp travels as opaque UTC text.

use vstd::prelude::*;
use vstd::string::StringExecFns;

verus! {

/// What a broadcast or private frame announces.
#[derive(Clone, Copy, Debug, PartialEq, Eq, Structural)]
pub enum MessageKind {
    Chat,
    Join,
    Leave,
    Info,
    Error,
}

/// Mathematical value of a [`Message`]: every text field as a sequence
/// of characters.
pub struct MessageModel {
    pub kind: MessageKind,
    pub content: Seq<char>,
    pub sender: Seq<char>,
    pub username: Option<Seq<char>>,
    pub timestamp: Seq<char>,
}

/// One chat-room message. `Chat`, `Join` and `Leave` messages are
/// broadcast to every subscriber; `Info` and `Error` messages are
/// private answers to a single connection.
pub struct Message {
    pub kind: MessageKind,
    pub content: String,
    pub sender: String,
    pub username: Option<String>,
    pub timestamp: String,
}

impl View for Message {
    type V = MessageModel;

    open spec fn view(&self) -> MessageModel {
        MessageModel {
            kind: self.kind,
            content: self.content@,
            sender: self.sender@,
            username: match self.username {
                Some(n) => Some(n@),
                None => None,
            },
            timestamp: self.timestamp@,
        }
    }
}

impl Clone for Message {
    fn clone(&self) -> (r: Self)
        ensures
            r@ == self@,
    {
        Message {
            kind: self.kind,
            content: self.content.clone(),
            sender: self.sender.clone(),
            username: match &self.username {
                Some(n) => Some(n.clone()),
                None => None,
            },
            timestamp: self.timestamp.clone(),
        }
    }
}

/// Relies on chrono's `Utc::now` and `to_rfc3339`: the current UTC
/// instant as text. The value depends on the clock, so nothing is
/// promised of it.
#[verifier::external_body]
fn now_timestamp() -> String {
    chrono::Utc::now().to_rfc3339()
}

/// A message stamped with the current UTC time. Everything but the
/// timestamp is pinned down; the timestamp text comes from the clock.
pub fn make_message(kind: MessageKind, content: String, sender: String, username: Option<String>)
    -> (r: Message)
    ensures
        r@.kind == kind,
        r@.content == content@,
        r@.sender == sender@,
        r@.username == (match username {
            Some(n) => Some(n@),
            None => None::<Seq<char>>,
        }),
{
    Message { kind, content, sender, username, timestamp: now_timestamp() }
}

/// The transcript line for one message: timestamp in brackets, then
/// sender and content.
pub open spec fn log_text(m: MessageModel) -> Seq<char> {
    seq!['['] + m.timestamp + "] "@ + m.sender + ": "@ + m.content
}

/// One line of the best-effort transcript a room may keep.
pub fn log_line(m: &Message) -> (r: String)
    ensures
        r@ == log_text(m@),
{
    let mut out = String::new();
    crate::text::push_char(&mut out, '[');
    out.append(m.timestamp.as_str());
    out.append("] ");
    out.append(m.sender.as_str());
    out.append(": ");
    out.append(m.content.as_str());
    proof {
        assert(out@ =~= log_text(m@));
    }
    out
}

/// Mathematical value of a [`TextLine`].
pub struct TextLineModel {
    pub text: Seq<char>,
    pub color: Option<SerializableColor>,
}

/// Mathematical value of a [`ChatMessage`].
pub struct ChatMessageModel {
    pub content: Seq<char>,
    pub sender: Seq<char>,
    pub username: Option<Seq<char>>,
    pub timestamp: Seq<char>,
    pub is_self: bool,
}

/// Mathematical value of a [`SystemEvent`].
pub enum SystemEventModel {
    ConnectionEstablished { address: Seq<char> },
    ConnectionClosed,
    ConnectionError { message: Seq<char> },
    PromptInput { prompt: Seq<char> },
    RateLimit { remaining_ms: u64 },
}

/// Mathematical value of an [`OutputEvent`].
pub enum OutputEventModel {
    TextLine(TextLineModel),
    ChatMessage(ChatMessageModel),
    SystemEvent(SystemEventModel),
}

/// An RGB colour that can travel between processes as plain bytes.
#[derive(Clone, Copy, Debug, PartialEq, Eq, Structural)]
pub struct SerializableColor {
    pub r: u8,
    pub g: u8,
    pub b: u8,
}

/// One line of plain text for the display, optionally coloured.
pub struct TextLine {
    pub text: String,
    pub color: Option<SerializableColor>,
}

impl View for TextLine {
    type V = TextLineModel;

    open spec fn view(&self) -> TextLineModel {
        TextLineModel { text: self.text@, color: self.color }
    }
}

/// A message as the display layer consumes it: `is_self` marks the
/// local client's own messages, which are rendered optimistically.
pub struct ChatMessage {
    pub content: String,
    pub sender: String,
    pub username: Option<String>,
    pub timestamp: String,
    pub is_self: bool,
}

impl View for ChatMessage {
    type V = ChatMessageModel;

    open spec fn view(&self) -> ChatMessageModel {
        ChatMessageModel {
            content: self.content@,
            sender: self.sender@,
            username: match self.username {
                Some(n) => Some(n@),
                None => None,
            },
            timestamp: self.timestamp@,
            is_self: self.is_self,
        }
    }
}

/// Connection-level notices handed to the display layer. The remaining
/// rate-limit time is reported in whole milliseconds.
pub enum SystemEvent {
    ConnectionEstablished { address: String },
    ConnectionClosed,
    ConnectionError { message: String },
    PromptInput { prompt: String },
    RateLimit { remaining_ms: u64 },
}

impl View for SystemEvent {
    type V = SystemEventModel;

    open spec fn view(&self) -> SystemEventModel {
        match self {
            SystemEvent::ConnectionEstablished { address } => (
            SystemEventModel::ConnectionEstablished { address: address@ }),
            SystemEvent::ConnectionClosed => SystemEventModel::ConnectionClosed,
            SystemEvent::ConnectionError { message } => (SystemEventModel::ConnectionError {
                message: message@,
            }),
            SystemEvent::PromptInput { prompt } => (SystemEventModel::PromptInput {
                prompt: prompt@,
            }),
            SystemEvent::RateLimit { remaining_ms } => (SystemEventModel::RateLimit {
                remaining_ms: *remaining_ms,
            }),
        }
    }
}

/// Everything the backend can hand to the display layer.
pub enum OutputEvent {
    TextLine(TextLine),
    ChatMessage(ChatMessage),
    SystemEvent(SystemEvent),
}

impl View for OutputEvent {
    type V = OutputEventModel;

    open spec fn view(&self) -> OutputEventModel {
        match self {
            OutputEvent::TextLine(l) => OutputEventModel::TextLine(l@),
            OutputEvent::ChatMessage(m) => OutputEventModel::ChatMessage(m@),
            OutputEvent::SystemEvent(e) => OutputEventModel::SystemEvent(e@),
        }
    }
}

/// Static knobs of a running room.
pub struct Config {
    pub default_port: u16,
    pub max_connections: usize,
    pub message_buffer_size: usize,
}

impl Default for Config {
    /// The listen port defaults to 8080; the broadcast buffer matches
    /// the bounded fan-out capacity.
    fn default() -> (r: Self)
        ensures
            r.default_port == 8080,
            r.message_buffer_size == 100,
    {
        Config { default_port: 8080, max_connections: 64, message_buffer_size: 100 }
    }
}

} // verus!
