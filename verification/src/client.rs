//! Client-side session logic: what one inbound server line becomes on
//! the display, and what one local input line becomes on the wire.
//!
//! The client learns its own canonical identity — its transport-level
//! address — when the connection opens, before any send. A reflected
//! broadcast whose `sender` equals that identity is discarded here:
//! it was already rendered optimistically when it was sent, so it
//! appears exactly once. This works only because `sender` always
//! carries the canonical identity, never the display name.

use vstd::prelude::*;
use crate::codec::{Frame, FrameModel, decode_frame, decoded};
use crate::limiter::{RateLimiter, SendVerdict, all_at_most, limiter_step, COOLDOWN_MS};
use crate::msg::{ChatMessage, ChatMessageModel, OutputEvent, OutputEventModel, SerializableColor,
    SystemEvent, SystemEventModel, TextLine, TextLineModel};
use crate::render::red_color;
use crate::text::{chars_of, string_of, trim_chars, trim_of};

verus! {

/// What one inbound line becomes on the display, if anything: a
/// reflected copy of one's own message becomes nothing, any other
/// broadcast becomes a remote message, a private notice or error
/// becomes a plain line, and unparsed text stays text.
pub open spec fn inbound_event(line: Seq<char>, me: Seq<char>) -> Option<OutputEventModel> {
    match decoded(trim_of(line)) {
        FrameModel::Broadcast { content, sender, username, timestamp } => {
            if sender == me {
                None
            } else {
                Some(
                    OutputEventModel::ChatMessage(
                        ChatMessageModel { content, sender, username, timestamp, is_self: false },
                    ),
                )
            }
        },
        FrameModel::Info(s) => Some(
            OutputEventModel::TextLine(TextLineModel { text: s, color: None }),
        ),
        FrameModel::Error(s) => Some(
            OutputEventModel::TextLine(TextLineModel { text: s, color: Some(red_color()) }),
        ),
        FrameModel::Text(s) => Some(
            OutputEventModel::TextLine(TextLineModel { text: s, color: None }),
        ),
    }
}

/// Self-echo law: a broadcast whose sender is this client's own
/// identity yields no display event — its one rendering happened as
/// the optimistic echo when it was sent — and every other broadcast
/// yields exactly one remote message.
pub proof fn law_self_echo(line: Seq<char>, me: Seq<char>)
    ensures
        (decoded(trim_of(line)) matches FrameModel::Broadcast { sender, .. } && sender == me)
            ==> inbound_event(line, me) is None,
        (decoded(trim_of(line)) matches FrameModel::Broadcast { sender, .. } && sender != me)
            ==> (inbound_event(line, me) matches Some(OutputEventModel::ChatMessage(m))
            && !m.is_self),
{
}

/// Turn one line read from the server into a display event, or into
/// nothing when it is the reflection of a message this client already
/// rendered itself.
pub fn process_server_line(line: &str, my_identity: &String) -> (r: Option<OutputEvent>)
    ensures
        r is Some <==> inbound_event(line@, my_identity@) is Some,
        r matches Some(ev) ==> Some(ev@) == inbound_event(line@, my_identity@),
{
    match decode_frame(line) {
        Frame::Broadcast { content, sender, username, timestamp } => {
            if sender == *my_identity {
                None
            } else {
                Some(
                    OutputEvent::ChatMessage(
                        ChatMessage { content, sender, username, timestamp, is_self: false },
                    ),
                )
            }
        },
        Frame::Info(s) => Some(OutputEvent::TextLine(TextLine { text: s, color: None })),
        Frame::Error(s) => Some(
            OutputEvent::TextLine(
                TextLine { text: s, color: Some(SerializableColor { r: 255, g: 0, b: 0 }) },
            ),
        ),
        Frame::Text(s) => Some(OutputEvent::TextLine(TextLine { text: s, color: None })),
    }
}

/// What one local input line leads to.
pub enum OutboundAction {
    /// The quit command: end the session.
    Quit,
    /// An empty line: nothing happens.
    Nothing,
    /// A cooldown is running: report the remaining time; the attempt
    /// is not recorded.
    Notify(SystemEvent),
    /// This attempt overflowed the window: show the warning; a
    /// cooldown has started.
    Throttled(TextLine),
    /// Accepted: write `payload` to the network and render `echo`
    /// locally at once, without waiting for the server.
    Send { payload: String, echo: ChatMessage },
}

/// Decide what to do with one local input line at `now` milliseconds:
/// quit on the quit command, skip empty lines, and put everything
/// else through the rate limiter. An accepted message is handed out
/// for the wire together with its optimistic local echo, stamped `ts`
/// and attributed to `You`.
pub fn client_send(lim: &mut RateLimiter, my_identity: &String, input: &str, now: u64, ts: &String)
    -> (r: OutboundAction)
    requires
        old(lim).wf(),
        all_at_most(old(lim)@.window, now),
        now + COOLDOWN_MS <= u64::MAX,
    ensures
        final(lim).wf(),
        all_at_most(final(lim)@.window, now),
        ({
            let t = trim_of(input@);
            &&& t == "/quit"@ ==> r is Quit && final(lim)@ == old(lim)@
            &&& (t != "/quit"@ && t.len() == 0) ==> r is Nothing && final(lim)@ == old(lim)@
            &&& (t != "/quit"@ && t.len() > 0) ==> {
                let sv = limiter_step(old(lim)@, now);
                &&& final(lim)@ == sv.0
                &&& sv.1 is Accepted ==> (r matches OutboundAction::Send { payload, echo }
                    && payload@ == t && echo@ == (ChatMessageModel {
                    content: t,
                    sender: my_identity@,
                    username: Some("You"@),
                    timestamp: ts@,
                    is_self: true,
                }))
                &&& sv.1 matches SendVerdict::CoolingDown { remaining_ms } ==> (r matches
                    OutboundAction::Notify(e) && e@ == (SystemEventModel::RateLimit {
                    remaining_ms,
                }))
                &&& sv.1 is Throttled ==> (r matches OutboundAction::Throttled(l) && l@ == (
                TextLineModel {
                    text: "You are sending messages too fast! Timeout for 10 seconds."@,
                    color: Some(red_color()),
                }))
            }
        }),
{
    let cs = chars_of(input);
    let t = trim_chars(&cs);
    let ts_text = string_of(t.as_slice());
    if ts_text == "/quit".to_owned() {
        return OutboundAction::Quit;
    }
    if t.len() == 0 {
        return OutboundAction::Nothing;
    }
    match lim.on_attempt(now) {
        SendVerdict::Accepted => {
            let echo = ChatMessage {
                content: ts_text.clone(),
                sender: my_identity.clone(),
                username: Some("You".to_owned()),
                timestamp: ts.clone(),
                is_self: true,
            };
            OutboundAction::Send { payload: ts_text, echo }
        },
        SendVerdict::CoolingDown { remaining_ms } => {
            OutboundAction::Notify(SystemEvent::RateLimit { remaining_ms })
        },
        SendVerdict::Throttled => {
            OutboundAction::Throttled(
                TextLine {
                    text: "You are sending messages too fast! Timeout for 10 seconds.".to_owned(),
                    color: Some(SerializableColor { r: 255, g: 0, b: 0 }),
                },
            )
        },
    }
}

} // verus!
