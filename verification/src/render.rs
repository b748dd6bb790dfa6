//! What the display layer shows, computed as plain text and colours.
//!
//! The display itself — a terminal widget, a plain console — lives
//! outside the library; these functions decide the exact spans of
//! text and the colour of each, so the outside only appends them.

use vstd::prelude::*;
use vstd::string::StringExecFns;
use crate::msg::{ChatMessage, ChatMessageModel, SerializableColor, SystemEvent, SystemEventModel,
    TextLine, TextLineModel};
use crate::text::{dec_text, digit_char, digit_char_exec, push_char, u64_text};

verus! {

/// The red used for errors and rate-limit notices.
pub open spec fn red_color() -> SerializableColor {
    SerializableColor { r: 255, g: 0, b: 0 }
}

/// The green used for confirmations.
pub open spec fn green_color() -> SerializableColor {
    SerializableColor { r: 0, g: 255, b: 0 }
}

/// The yellow used for timestamps.
pub open spec fn yellow_color() -> SerializableColor {
    SerializableColor { r: 255, g: 255, b: 0 }
}

/// The cyan used for message bodies.
pub open spec fn cyan_color() -> SerializableColor {
    SerializableColor { r: 0, g: 255, b: 255 }
}

/// The magenta used for prompts.
pub open spec fn magenta_color() -> SerializableColor {
    SerializableColor { r: 255, g: 0, b: 255 }
}

/// The label a rendered message is attributed to: `You` for one's own
/// messages, else the display name, else the canonical identity.
pub open spec fn display_label(m: ChatMessageModel) -> Seq<char> {
    if m.is_self {
        "You"@
    } else {
        match m.username {
            Some(u) => u,
            None => m.sender,
        }
    }
}

/// The text of a rate-limit notice: the remaining time in seconds
/// with one decimal place.
pub open spec fn rate_limit_text(remaining_ms: u64) -> Seq<char> {
    "You are on timeout for "@ + dec_text((remaining_ms / 1000) as nat) + seq!['.'] + seq![
        digit_char(((remaining_ms % 1000) / 100) as int),
    ] + " more seconds"@
}

/// The display line for one connection-level notice.
pub open spec fn system_event_line(e: SystemEventModel) -> TextLineModel {
    match e {
        SystemEventModel::ConnectionEstablished { address } => (TextLineModel {
            text: "Connected as "@ + address,
            color: Some(green_color()),
        }),
        SystemEventModel::ConnectionClosed => (TextLineModel {
            text: "Server closed the connection."@,
            color: Some(red_color()),
        }),
        SystemEventModel::ConnectionError { message } => (TextLineModel {
            text: "Error: "@ + message,
            color: Some(red_color()),
        }),
        SystemEventModel::PromptInput { prompt } => (TextLineModel {
            text: prompt,
            color: Some(magenta_color()),
        }),
        SystemEventModel::RateLimit { remaining_ms } => (TextLineModel {
            text: rate_limit_text(remaining_ms),
            color: Some(red_color()),
        }),
    }
}

/// The span the display appends for one plain line: its text with the
/// line break, in the line's colour.
pub fn print_textline_to_output(line: &TextLine) -> (r: (String, Option<SerializableColor>))
    ensures
        r.0@ == line@.text + seq!['\n'],
        r.1 == line@.color,
{
    let mut text = line.text.clone();
    push_char(&mut text, '\n');
    (text, line.color)
}

/// The three spans the display appends for one message: the
/// timestamp in brackets, the attribution label, and the content with
/// the line break.
pub fn print_chat_message_to_output(m: &ChatMessage) -> (r: Vec<(String, SerializableColor)>)
    ensures
        r@.len() == 3,
        r@[0].0@ == seq!['['] + m@.timestamp + "] "@ && r@[0].1 == yellow_color(),
        r@[1].0@ == display_label(m@) + ": "@ && r@[1].1 == green_color(),
        r@[2].0@ == m@.content + seq!['\n'] && r@[2].1 == cyan_color(),
{
    let mut stamp = String::new();
    push_char(&mut stamp, '[');
    stamp.append(m.timestamp.as_str());
    stamp.append("] ");
    let mut label = if m.is_self {
        "You".to_owned()
    } else {
        match &m.username {
            Some(u) => u.clone(),
            None => m.sender.clone(),
        }
    };
    label.append(": ");
    let mut body = m.content.clone();
    push_char(&mut body, '\n');
    let mut r: Vec<(String, SerializableColor)> = Vec::new();
    r.push((stamp, SerializableColor { r: 255, g: 255, b: 0 }));
    r.push((label, SerializableColor { r: 0, g: 255, b: 0 }));
    r.push((body, SerializableColor { r: 0, g: 255, b: 255 }));
    r
}

/// The display line for one connection-level notice, coloured by its
/// weight.
pub fn handle_system_event(ev: &SystemEvent) -> (r: TextLine)
    ensures
        r@ == system_event_line(ev@),
{
    match ev {
        SystemEvent::ConnectionEstablished { address } => {
            let mut text = "Connected as ".to_owned();
            text.append(address.as_str());
            TextLine { text, color: Some(SerializableColor { r: 0, g: 255, b: 0 }) }
        },
        SystemEvent::ConnectionClosed => {
            TextLine {
                text: "Server closed the connection.".to_owned(),
                color: Some(SerializableColor { r: 255, g: 0, b: 0 }),
            }
        },
        SystemEvent::ConnectionError { message } => {
            let mut text = "Error: ".to_owned();
            text.append(message.as_str());
            TextLine { text, color: Some(SerializableColor { r: 255, g: 0, b: 0 }) }
        },
        SystemEvent::PromptInput { prompt } => {
            TextLine { text: prompt.clone(), color: Some(SerializableColor { r: 255, g: 0, b: 255 }) }
        },
        SystemEvent::RateLimit { remaining_ms } => {
            let ms = *remaining_ms;
            let mut text = "You are on timeout for ".to_owned();
            let secs = u64_text(ms / 1000);
            text.append(secs.as_str());
            push_char(&mut text, '.');
            push_char(&mut text, digit_char_exec((ms % 1000) / 100));
            text.append(" more seconds");
            proof {
                assert(text@ =~= rate_limit_text(ms));
            }
            TextLine { text, color: Some(SerializableColor { r: 255, g: 0, b: 0 }) }
        },
    }
}

} // verus!
