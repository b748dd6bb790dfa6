//! One chat room: the display-name registry and the broadcast fan-out
//! behind every connection, driven by the per-connection state
//! machine. All decisions are made here; the surrounding process only
//! moves bytes and hands each connection's events in.

use vstd::prelude::*;
use crate::broadcast::{Broadcaster, RecvOutcome, SubModel, sub_after_publish};
use crate::handler::{self, HandlerState, StateModel, LineOutcome, is_name_cmd, name_arg, ack_text,
    join_text, leave_text, display_name};
use crate::msg::{Message, MessageModel, MessageKind};
use crate::registry::Registry;
use crate::text::trim_of;

verus! {

/// Mathematical value of a [`Room`]: who is named what, and what each
/// subscription still has pending.
pub struct RoomModel {
    pub names: Map<Seq<char>, Seq<char>>,
    pub subs: Seq<SubModel>,
    pub capacity: usize,
}

/// The shared state of one running room.
pub struct Room {
    registry: Registry,
    caster: Broadcaster,
}

impl View for Room {
    type V = RoomModel;

    closed spec fn view(&self) -> RoomModel {
        RoomModel {
            names: self.registry@,
            subs: self.caster@.subs,
            capacity: self.caster@.capacity,
        }
    }
}

impl Room {
    /// The registry keeps identities unique; the fan-out buffers at
    /// least one message.
    pub closed spec fn wf(&self) -> bool {
        self.registry.wf() && self.caster.wf()
    }

    /// An empty room whose subscriptions buffer `capacity` messages.
    pub fn new(capacity: usize) -> (r: Self)
        requires
            capacity >= 1,
        ensures
            r.wf(),
            r@.names == Map::<Seq<char>, Seq<char>>::empty(),
            r@.subs.len() == 0,
            r@.capacity == capacity,
    {
        Room { registry: Registry::new(), caster: Broadcaster::new(capacity) }
    }

    /// Subscribe a new connection to the fan-out. It sees only what
    /// is published from now on.
    pub fn subscribe(&mut self) -> (id: usize)
        requires
            old(self).wf(),
        ensures
            final(self).wf(),
            id == old(self)@.subs.len(),
            final(self)@.names == old(self)@.names,
            final(self)@.capacity == old(self)@.capacity,
            final(self)@.subs.len() == old(self)@.subs.len() + 1,
            forall|j: int|
                0 <= j < old(self)@.subs.len() ==> final(self)@.subs[j] == old(self)@.subs[j],
            final(self)@.subs.last() == (SubModel { queue: Seq::<MessageModel>::empty(), missed: 0 }),
    {
        self.caster.subscribe()
    }

    /// The name this identity registered, if any.
    pub fn name_of(&self, identity: &String) -> (r: Option<String>)
        requires
            self.wf(),
        ensures
            r is Some <==> self@.names.contains_key(identity@),
            r matches Some(n) ==> n@ == self@.names[identity@],
    {
        self.registry.get(identity)
    }

    /// Take the next pending item of subscription `id`.
    pub fn recv(&mut self, id: usize) -> (r: RecvOutcome)
        requires
            old(self).wf(),
            id < old(self)@.subs.len(),
        ensures
            final(self).wf(),
            final(self)@.names == old(self)@.names,
            final(self)@.capacity == old(self)@.capacity,
            final(self)@.subs.len() == old(self)@.subs.len(),
            forall|j: int|
                0 <= j < old(self)@.subs.len() && j != id ==> final(self)@.subs[j] == old(
                    self,
                )@.subs[j],
            old(self)@.subs[id as int].missed > 0 ==> r == RecvOutcome::Lagged(
                old(self)@.subs[id as int].missed,
            ) && final(self)@.subs[id as int] == (SubModel {
                queue: old(self)@.subs[id as int].queue,
                missed: 0,
            }),
            old(self)@.subs[id as int].missed == 0 && old(self)@.subs[id as int].queue.len() == 0
                ==> r is Empty && final(self)@.subs[id as int] == old(self)@.subs[id as int],
            old(self)@.subs[id as int].missed == 0 && old(self)@.subs[id as int].queue.len() > 0
                ==> (r matches RecvOutcome::Message(m) && m@ == old(
                self,
            )@.subs[id as int].queue[0]) && final(self)@.subs[id as int] == (SubModel {
                queue: old(self)@.subs[id as int].queue.drop_first(),
                missed: 0,
            }),
    {
        self.caster.recv(id)
    }

    /// Feed one inbound line of a connection through the state
    /// machine and apply what it decides: a valid name-set command
    /// registers the name, announces the join to every subscription
    /// and acknowledges privately; a malformed one answers privately
    /// with an error; an ordinary line is broadcast as chat tagged
    /// with the connection's identity and current display name; an
    /// empty line does nothing. The reply, if any, is for this
    /// connection alone.
    pub fn on_line(&mut self, state: &mut HandlerState, identity: &String, line: &str, ts: &String)
        -> (reply: Option<Message>)
        requires
            old(self).wf(),
            !(old(state)@ is Closed),
        ensures
            final(self).wf(),
            final(self)@.capacity == old(self)@.capacity,
            final(self)@.subs.len() == old(self)@.subs.len(),
            ({
                let t = trim_of(line@);
                &&& (is_name_cmd(t) && name_arg(t).len() > 0) ==> {
                    &&& final(state)@ == StateModel::Named(name_arg(t))
                    &&& final(self)@.names == old(self)@.names.insert(identity@, name_arg(t))
                    &&& forall|j: int|
                        0 <= j < old(self)@.subs.len() ==> final(self)@.subs[j]
                            == sub_after_publish(
                            old(self)@.subs[j],
                            (MessageModel {
                                kind: MessageKind::Join,
                                content: join_text(name_arg(t)),
                                sender: identity@,
                                username: Some(name_arg(t)),
                                timestamp: ts@,
                            }),
                            old(self)@.capacity,
                        )
                    &&& reply matches Some(a) && a@ == (MessageModel {
                        kind: MessageKind::Info,
                        content: ack_text(name_arg(t)),
                        sender: identity@,
                        username: Some(name_arg(t)),
                        timestamp: ts@,
                    })
                }
                &&& (is_name_cmd(t) && name_arg(t).len() == 0) ==> {
                    &&& final(state)@ == old(state)@
                    &&& final(self)@.names == old(self)@.names
                    &&& final(self)@.subs == old(self)@.subs
                    &&& reply matches Some(e) && e@ == (MessageModel {
                        kind: MessageKind::Error,
                        content: "Invalid username command"@,
                        sender: identity@,
                        username: None,
                        timestamp: ts@,
                    })
                }
                &&& (!is_name_cmd(t) && t.len() > 0) ==> {
                    &&& final(state)@ == old(state)@
                    &&& final(self)@.names == old(self)@.names
                    &&& forall|j: int|
                        0 <= j < old(self)@.subs.len() ==> final(self)@.subs[j]
                            == sub_after_publish(
                            old(self)@.subs[j],
                            (MessageModel {
                                kind: MessageKind::Chat,
                                content: t,
                                sender: identity@,
                                username: display_name(old(state)@),
                                timestamp: ts@,
                            }),
                            old(self)@.capacity,
                        )
                    &&& reply is None
                }
                &&& (!is_name_cmd(t) && t.len() == 0) ==> {
                    &&& final(state)@ == old(state)@
                    &&& final(self)@ == old(self)@
                    &&& reply is None
                }
            }),
    {
        match handler::on_line(state, identity, line, ts) {
            LineOutcome::NameSet { ack, join } => {
                match &*state {
                    HandlerState::Named(n) => {
                        let name = n.clone();
                        self.registry.set(identity, name);
                    },
                    _ => {
                        proof {
                            assert(false);
                        }
                    },
                }
                self.caster.publish(&join);
                Some(ack)
            },
            LineOutcome::BadName { error } => Some(error),
            LineOutcome::Chat { msg } => {
                self.caster.publish(&msg);
                None
            },
            LineOutcome::Ignored => None,
        }
    }

    /// Close a connection after EOF or I/O failure: its registry
    /// entry is released, and a connection that was `Named` yields
    /// exactly one Leave broadcast — one that never set a name yields
    /// none.
    pub fn on_disconnect(&mut self, state: &mut HandlerState, identity: &String, ts: &String)
        requires
            old(self).wf(),
        ensures
            final(self).wf(),
            final(state)@ is Closed,
            final(self)@.capacity == old(self)@.capacity,
            final(self)@.subs.len() == old(self)@.subs.len(),
            final(self)@.names == old(self)@.names.remove(identity@),
            old(state)@ matches StateModel::Named(n) ==> forall|j: int|
                0 <= j < old(self)@.subs.len() ==> final(self)@.subs[j] == sub_after_publish(
                    old(self)@.subs[j],
                    (MessageModel {
                        kind: MessageKind::Leave,
                        content: leave_text(n),
                        sender: identity@,
                        username: Some(n),
                        timestamp: ts@,
                    }),
                    old(self)@.capacity,
                ),
            !(old(state)@ is Named) ==> final(self)@.subs == old(self)@.subs,
    {
        let leave = handler::on_disconnect(state, identity, ts);
        self.registry.remove(identity);
        match leave {
            Some(m) => {
                self.caster.publish(&m);
            },
            None => {},
        }
    }
}

} // verus!
