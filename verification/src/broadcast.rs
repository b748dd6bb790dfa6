//! Bounded broadcast fan-out.
//!
//! One `Broadcaster` serves a whole room: every connection subscribes
//! and publishes through it. Each subscriber owns a bounded queue;
//! publishing appends to every queue in call order, and a subscriber
//! that cannot keep up loses its oldest backlog and is told how many
//! messages it missed — a lag, not a failure. This caps memory and
//! keeps one slow consumer from stalling the room.

use vstd::prelude::*;
use crate::msg::{Message, MessageModel};

verus! {

/// Mathematical value of one subscription: the pending messages in
/// arrival order, and how many were dropped since the last receive.
pub struct SubModel {
    pub queue: Seq<MessageModel>,
    pub missed: u64,
}

/// Mathematical value of a [`Broadcaster`].
pub struct BroadcasterModel {
    pub subs: Seq<SubModel>,
    pub capacity: usize,
}

struct Subscriber {
    queue: Vec<Message>,
    missed: u64,
}

/// The single fan-out point of a room.
pub struct Broadcaster {
    subs: Vec<Subscriber>,
    capacity: usize,
}

/// The message values held in `q`, in order.
pub open spec fn models_of(q: Seq<Message>) -> Seq<MessageModel> {
    Seq::new(q.len(), |i: int| q[i]@)
}

impl View for Subscriber {
    type V = SubModel;

    closed spec fn view(&self) -> SubModel {
        SubModel { queue: models_of(self.queue@), missed: self.missed }
    }
}

/// The subscription values held in `s`, in order.
pub open spec fn sub_models(s: Seq<Subscriber>) -> Seq<SubModel> {
    Seq::new(s.len(), |i: int| s[i]@)
}

impl View for Broadcaster {
    type V = BroadcasterModel;

    closed spec fn view(&self) -> BroadcasterModel {
        BroadcasterModel { subs: sub_models(self.subs@), capacity: self.capacity }
    }
}

/// `n + 1`, stopping at the top of `u64`.
pub open spec fn sat_inc(n: u64) -> u64 {
    if n == u64::MAX {
        n
    } else {
        (n + 1) as u64
    }
}

/// One subscription after a publish: the message goes to the back;
/// a full queue first loses its oldest entry and counts it missed.
pub open spec fn sub_after_publish(s: SubModel, m: MessageModel, cap: usize) -> SubModel {
    if s.queue.len() >= cap {
        SubModel { queue: s.queue.drop_first().push(m), missed: sat_inc(s.missed) }
    } else {
        SubModel { queue: s.queue.push(m), missed: s.missed }
    }
}

/// What one receive yields.
pub enum RecvOutcome {
    /// The oldest pending message.
    Message(Message),
    /// The subscriber fell behind: this many messages were lost; it
    /// resumes from the oldest retained one.
    Lagged(u64),
    /// Nothing pending.
    Empty,
}

impl Broadcaster {
    /// A usable fan-out buffers at least one message per subscription.
    pub open spec fn wf(&self) -> bool {
        self@.capacity >= 1
    }

    /// A fan-out with no subscribers; each subscription buffers at
    /// most `capacity` messages.
    pub fn new(capacity: usize) -> (r: Self)
        requires
            capacity >= 1,
        ensures
            r.wf(),
            r@.capacity == capacity,
            r@.subs.len() == 0,
    {
        let r = Broadcaster { subs: Vec::new(), capacity };
        proof {
            assert(r@.subs =~= Seq::<SubModel>::empty());
        }
        r
    }

    /// How many subscriptions exist.
    pub fn subscriber_count(&self) -> (r: usize)
        ensures
            r == self@.subs.len(),
    {
        self.subs.len()
    }

    /// Open a new subscription and hand back its handle. It observes
    /// only messages published from now on: its queue starts empty.
    pub fn subscribe(&mut self) -> (id: usize)
        ensures
            final(self).wf() == old(self).wf(),
            id == old(self)@.subs.len(),
            final(self)@.capacity == old(self)@.capacity,
            final(self)@.subs.len() == old(self)@.subs.len() + 1,
            forall|j: int|
                0 <= j < old(self)@.subs.len() ==> final(self)@.subs[j] == old(self)@.subs[j],
            final(self)@.subs.last() == (SubModel { queue: Seq::<MessageModel>::empty(), missed: 0 }),
    {
        let id = self.subs.len();
        let fresh = Subscriber { queue: Vec::new(), missed: 0 };
        proof {
            assert(fresh@.queue =~= Seq::<MessageModel>::empty());
        }
        self.subs.push(fresh);
        id
    }

    /// Deliver `m` to every subscription, in call order: each queue
    /// gets `m` at the back, and a full one first drops its oldest
    /// entry and counts the miss.
    pub fn publish(&mut self, m: &Message)
        requires
            old(self).wf(),
        ensures
            final(self).wf(),
            final(self)@.capacity == old(self)@.capacity,
            final(self)@.subs.len() == old(self)@.subs.len(),
            forall|j: int|
                0 <= j < old(self)@.subs.len() ==> final(self)@.subs[j] == sub_after_publish(
                    old(self)@.subs[j],
                    m@,
                    old(self)@.capacity,
                ),
    {
        let n = self.subs.len();
        let mut i: usize = 0;
        while i < n
            invariant
                n == self.subs@.len(),
                i <= n,
                self.capacity == old(self).capacity,
                self.capacity >= 1,
                forall|j: int|
                    i <= j < n ==> #[trigger] self.subs@[j]@ == old(self)@.subs[j],
                forall|j: int|
                    0 <= j < i ==> #[trigger] self.subs@[j]@ == sub_after_publish(
                        old(self)@.subs[j],
                        m@,
                        old(self).capacity,
                    ),
            decreases n - i,
        {
            let ghost pre = self.subs@[i as int]@;
            let cap = self.capacity;
            let sub = &mut self.subs[i];
            if sub.queue.len() >= cap {
                sub.queue.remove(0);
                if sub.missed < u64::MAX {
                    sub.missed = sub.missed + 1;
                }
                sub.queue.push(m.clone());
                proof {
                    assert(models_of(sub.queue@) =~= pre.queue.drop_first().push(m@));
                }
            } else {
                sub.queue.push(m.clone());
                proof {
                    assert(models_of(sub.queue@) =~= pre.queue.push(m@));
                }
            }
            i = i + 1;
        }
    }

    /// Take the next thing this subscription has to offer: a pending
    /// lag notice first, else the oldest pending message, else nothing.
    pub fn recv(&mut self, id: usize) -> (r: RecvOutcome)
        requires
            id < old(self)@.subs.len(),
        ensures
            final(self).wf() == old(self).wf(),
            final(self)@.capacity == old(self)@.capacity,
            final(self)@.subs.len() == old(self)@.subs.len(),
            forall|j: int|
                0 <= j < old(self)@.subs.len() && j != id ==> final(self)@.subs[j] == old(
                    self,
                )@.subs[j],
            old(self)@.subs[id as int].missed > 0 ==> r == RecvOutcome::Lagged(
                old(self)@.subs[id as int].missed,
            ) && final(self)@.subs[id as int] == (SubModel {
                queue: old(self)@.subs[id as int].queue,
                missed: 0,
            }),
            old(self)@.subs[id as int].missed == 0 && old(self)@.subs[id as int].queue.len() == 0
                ==> r is Empty && final(self)@.subs[id as int] == old(self)@.subs[id as int],
            old(self)@.subs[id as int].missed == 0 && old(self)@.subs[id as int].queue.len() > 0
                ==> (r matches RecvOutcome::Message(m) && m@ == old(
                self,
            )@.subs[id as int].queue[0]) && final(self)@.subs[id as int] == (SubModel {
                queue: old(self)@.subs[id as int].queue.drop_first(),
                missed: 0,
            }),
    {
        let ghost pre = self.subs@[id as int]@;
        let sub = &mut self.subs[id];
        if sub.missed > 0 {
            let missed = sub.missed;
            sub.missed = 0;
            RecvOutcome::Lagged(missed)
        } else if sub.queue.len() == 0 {
            RecvOutcome::Empty
        } else {
            let m = sub.queue.remove(0);
            proof {
                assert(models_of(sub.queue@) =~= pre.queue.drop_first());
            }
            RecvOutcome::Message(m)
        }
    }
}

/// Order law: publish order is preserved per subscription. Two
/// messages published in turn stand in that order in every queue that
/// had room for both; no ordering is promised across subscriptions.
pub proof fn law_publish_order(s: SubModel, m1: MessageModel, m2: MessageModel, cap: usize)
    requires
        s.queue.len() + 2 <= cap,
    ensures
        sub_after_publish(sub_after_publish(s, m1, cap), m2, cap).queue == s.queue.push(m1).push(
            m2,
        ),
        sub_after_publish(sub_after_publish(s, m1, cap), m2, cap).missed == s.missed,
{
}

/// Fan-out law: one publish reaches every subscription — the message
/// stands at the back of each queue afterwards — and a subscription
/// that still had room loses nothing: its queue grows by exactly that
/// message and its miss count is untouched.
pub proof fn law_publish_reaches_all(subs: Seq<SubModel>, m: MessageModel, cap: usize)
    ensures
        forall|i: int|
            0 <= i < subs.len() ==> (#[trigger] sub_after_publish(subs[i], m, cap)).queue.last()
                == m,
        forall|i: int|
            0 <= i < subs.len() && subs[i].queue.len() < cap ==> (#[trigger] sub_after_publish(
                subs[i],
                m,
                cap,
            )) == (SubModel { queue: subs[i].queue.push(m), missed: subs[i].missed }),
{
}

} // verus!
