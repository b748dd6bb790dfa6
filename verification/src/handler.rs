//! Per-connection state machine of the server.
//!
//! A connection starts **Connected** (no display name), becomes
//! **Named** after a valid name-set command, and ends **Closed** on
//! EOF or I/O failure. Ordinary lines are chat; the name-set command
//! is the literal prefix `/username:` with the trimmed remainder as
//! the argument. A malformed command draws a private error and leaves
//! the connection open and its state unchanged.

use vstd::prelude::*;
use crate::msg::{Message, MessageModel, MessageKind};
use crate::text::{trim_of, chars_of, string_of, trim_chars, slice_range};

verus! {

/// Mathematical value of a [`HandlerState`].
pub enum StateModel {
    Connected,
    Named(Seq<char>),
    Closed,
}

/// Lifecycle state of one connection.
pub enum HandlerState {
    /// Accepted, no display name yet.
    Connected,
    /// A display name is set.
    Named(String),
    /// EOF or I/O failure; terminal.
    Closed,
}

impl View for HandlerState {
    type V = StateModel;

    open spec fn view(&self) -> StateModel {
        match self {
            HandlerState::Connected => StateModel::Connected,
            HandlerState::Named(n) => StateModel::Named(n@),
            HandlerState::Closed => StateModel::Closed,
        }
    }
}

/// Is `line` a name-set command?
pub open spec fn is_name_cmd(line: Seq<char>) -> bool {
    line.len() >= 10 && line.subrange(0, 10) == "/username:"@
}

/// The argument of a name-set command: the trimmed remainder.
pub open spec fn name_arg(line: Seq<char>) -> Seq<char> {
    trim_of(line.subrange(10, line.len() as int))
}

/// Content of the private acknowledgement after a name is set.
pub open spec fn ack_text(name: Seq<char>) -> Seq<char> {
    "Username set to '"@ + name + "'"@
}

/// Content of the Join broadcast.
pub open spec fn join_text(name: Seq<char>) -> Seq<char> {
    name + " has joined the chat"@
}

/// Content of the Leave broadcast.
pub open spec fn leave_text(name: Seq<char>) -> Seq<char> {
    name + " has left the chat"@
}

/// The display name a chat message carries in each state.
pub open spec fn display_name(s: StateModel) -> Option<Seq<char>> {
    match s {
        StateModel::Named(n) => Some(n),
        _ => None,
    }
}

/// What one inbound line leads to.
pub enum LineOutcome {
    /// A valid name-set command: acknowledge privately, announce the
    /// join to the room.
    NameSet { ack: Message, join: Message },
    /// A name-set command with an empty argument: answer privately
    /// with an error; nothing is broadcast.
    BadName { error: Message },
    /// An ordinary chat line: broadcast it.
    Chat { msg: Message },
    /// An empty line: nothing happens.
    Ignored,
}

/// If `t` is a name command, its trimmed argument.
fn split_name_cmd(t: &Vec<char>) -> (r: Option<Vec<char>>)
    ensures
        r is Some <==> is_name_cmd(t@),
        r matches Some(a) ==> a@ == name_arg(t@),
{
    if t.len() < 10 {
        return None;
    }
    let prefix = slice_range(t, 0, 10);
    let ps = string_of(prefix.as_slice());
    if ps == "/username:".to_owned() {
        let rest = slice_range(t, 10, t.len());
        let arg = trim_chars(&rest);
        Some(arg)
    } else {
        None
    }
}

/// Drive the state machine with one inbound line, stamped `ts`.
///
/// A valid name-set command moves any open state to `Named`; a
/// malformed one changes nothing and draws a private error; an
/// ordinary line becomes a Chat message tagged with the connection's
/// canonical identity and its current display name; an empty line is
/// ignored. The sender of every message is the identity, never the
/// display name.
pub fn on_line(state: &mut HandlerState, identity: &String, line: &str, ts: &String) -> (out:
    LineOutcome)
    requires
        !(old(state)@ is Closed),
    ensures
        ({
            let t = trim_of(line@);
            &&& (is_name_cmd(t) && name_arg(t).len() > 0) ==> {
                &&& final(state)@ == StateModel::Named(name_arg(t))
                &&& out matches LineOutcome::NameSet { ack, join } && ack@ == (MessageModel {
                    kind: MessageKind::Info,
                    content: ack_text(name_arg(t)),
                    sender: identity@,
                    username: Some(name_arg(t)),
                    timestamp: ts@,
                }) && join@ == (MessageModel {
                    kind: MessageKind::Join,
                    content: join_text(name_arg(t)),
                    sender: identity@,
                    username: Some(name_arg(t)),
                    timestamp: ts@,
                })
            }
            &&& (is_name_cmd(t) && name_arg(t).len() == 0) ==> {
                &&& final(state)@ == old(state)@
                &&& out matches LineOutcome::BadName { error } && error@ == (MessageModel {
                    kind: MessageKind::Error,
                    content: "Invalid username command"@,
                    sender: identity@,
                    username: None,
                    timestamp: ts@,
                })
            }
            &&& (!is_name_cmd(t) && t.len() > 0) ==> {
                &&& final(state)@ == old(state)@
                &&& out matches LineOutcome::Chat { msg } && msg@ == (MessageModel {
                    kind: MessageKind::Chat,
                    content: t,
                    sender: identity@,
                    username: display_name(old(state)@),
                    timestamp: ts@,
                })
            }
            &&& (!is_name_cmd(t) && t.len() == 0) ==> final(state)@ == old(state)@ && out
                is Ignored
        }),
{
    let cs = chars_of(line);
    let t = trim_chars(&cs);
    match split_name_cmd(&t) {
        Some(arg) => {
            if arg.len() > 0 {
                let name = string_of(arg.as_slice());
                let mut ack_content = String::new();
                ack_content.append("Username set to '");
                ack_content.append(name.as_str());
                ack_content.append("'");
                let mut join_content = name.clone();
                join_content.append(" has joined the chat");
                let ack = Message {
                    kind: MessageKind::Info,
                    content: ack_content,
                    sender: identity.clone(),
                    username: Some(name.clone()),
                    timestamp: ts.clone(),
                };
                let join = Message {
                    kind: MessageKind::Join,
                    content: join_content,
                    sender: identity.clone(),
                    username: Some(name.clone()),
                    timestamp: ts.clone(),
                };
                *state = HandlerState::Named(name);
                proof {
                    assert(ack@.content =~= ack_text(name_arg(trim_of(line@))));
                    assert(join@.content =~= join_text(name_arg(trim_of(line@))));
                }
                LineOutcome::NameSet { ack, join }
            } else {
                let error = Message {
                    kind: MessageKind::Error,
                    content: "Invalid username command".to_owned(),
                    sender: identity.clone(),
                    username: None,
                    timestamp: ts.clone(),
                };
                LineOutcome::BadName { error }
            }
        },
        None => {
            if t.len() == 0 {
                LineOutcome::Ignored
            } else {
                let username = match &*state {
                    HandlerState::Named(n) => Some(n.clone()),
                    _ => None,
                };
                let msg = Message {
                    kind: MessageKind::Chat,
                    content: string_of(t.as_slice()),
                    sender: identity.clone(),
                    username,
                    timestamp: ts.clone(),
                };
                LineOutcome::Chat { msg }
            }
        },
    }
}

/// Close the connection on EOF or I/O failure. A `Named` connection
/// yields exactly one Leave broadcast; one that never set a name
/// yields none. Either way the state is terminal afterwards.
pub fn on_disconnect(state: &mut HandlerState, identity: &String, ts: &String) -> (leave: Option<
    Message,
>)
    ensures
        final(state)@ is Closed,
        old(state)@ matches StateModel::Named(n) ==> leave matches Some(m) && m@ == (MessageModel {
            kind: MessageKind::Leave,
            content: leave_text(n),
            sender: identity@,
            username: Some(n),
            timestamp: ts@,
        }),
        !(old(state)@ is Named) ==> leave is None,
{
    let prev_name = match &*state {
        HandlerState::Named(n) => Some(n.clone()),
        _ => None,
    };
    *state = HandlerState::Closed;
    match prev_name {
        Some(name) => {
            let mut content = name.clone();
            content.append(" has left the chat");
            Some(
                Message {
                    kind: MessageKind::Leave,
                    content,
                    sender: identity.clone(),
                    username: Some(name),
                    timestamp: ts.clone(),
                },
            )
        },
        None => None,
    }
}

} // verus!
