//! The message bus: a bounded inbound queue that every producer writes to,
//! and a broadcast side that fans each event out to all current subscribers.
//!
//! Events leave the inbound queue one at a time, oldest first, and each is
//! published exactly once. A subscriber gets every event published after it
//! joined and none from before.

use crate::message::{views, Message, MessageView};
use vstd::prelude::*;

verus! {

/// The mathematical content of one subscription.
pub struct SubscriberView {
    /// How many events had been published when the subscriber joined.
    pub joined_at: nat,
    /// What the subscriber has received so far, oldest first.
    pub seen: Seq<MessageView>,
    /// What is waiting for the subscriber, oldest first.
    pub mailbox: Seq<MessageView>,
}

impl SubscriberView {
    /// Everything delivered to the subscriber, received or still waiting.
    pub open spec fn stream(self) -> Seq<MessageView> {
        self.seen + self.mailbox
    }
}

/// The mathematical content of a [`MessageBus`].
pub struct BusView {
    /// The most events that the inbound queue holds at once.
    pub capacity: nat,
    /// The inbound queue, oldest first.
    pub inbound: Seq<MessageView>,
    /// Every event published so far, oldest first.
    pub published: Seq<MessageView>,
    /// The current subscribers by their handle.
    pub subscribers: Map<u64, SubscriberView>,
    /// No handle at or above this one has been given out.
    pub next_handle: nat,
}

impl BusView {
    /// Every event that the bus has taken in, in the order of arrival.
    pub open spec fn accepted(self) -> Seq<MessageView> {
        self.published + self.inbound
    }

    /// What the bus maintains: the queue stays within its bound, and what a
    /// subscriber has been delivered is exactly what was published since it
    /// joined.
    pub open spec fn consistent(self) -> bool {
        &&& self.inbound.len() <= self.capacity
        &&& forall|h: u64| #[trigger]
            self.subscribers.contains_key(h) ==> {
                &&& h < self.next_handle
                &&& self.subscribers[h].joined_at <= self.published.len()
                &&& self.subscribers[h].stream() == self.published.subrange(
                    self.subscribers[h].joined_at as int,
                    self.published.len() as int,
                )
            }
    }

    /// The bus with `message` added at the back of the inbound queue.
    pub open spec fn enqueue(self, message: MessageView) -> BusView {
        BusView { inbound: self.inbound.push(message), ..self }
    }

    /// The bus with `message` published: it is appended to every mailbox.
    pub open spec fn publish(self, message: MessageView) -> BusView {
        BusView {
            published: self.published.push(message),
            subscribers: Map::new(
                |h: u64| self.subscribers.contains_key(h),
                |h: u64|
                    SubscriberView {
                        mailbox: self.subscribers[h].mailbox.push(message),
                        ..self.subscribers[h]
                    },
            ),
            ..self
        }
    }

    /// The bus with the oldest inbound event moved to the broadcast side.
    pub open spec fn rebroadcast(self) -> BusView
        recommends
            self.inbound.len() > 0,
    {
        BusView { inbound: self.inbound.drop_first(), ..self }.publish(self.inbound[0])
    }

    /// The bus with the whole inbound queue rebroadcast, oldest first.
    pub open spec fn drained(self) -> BusView
        decreases self.inbound.len(),
    {
        if self.inbound.len() == 0 {
            self
        } else {
            self.rebroadcast().drained()
        }
    }

    /// The bus with a new subscriber under the next free handle.
    pub open spec fn join(self) -> BusView {
        BusView {
            subscribers: self.subscribers.insert(
                self.next_handle as u64,
                SubscriberView {
                    joined_at: self.published.len(),
                    seen: Seq::empty(),
                    mailbox: Seq::empty(),
                },
            ),
            next_handle: self.next_handle + 1,
            ..self
        }
    }

    /// The bus without the subscriber `h`.
    pub open spec fn leave(self, h: u64) -> BusView {
        BusView { subscribers: self.subscribers.remove(h), ..self }
    }

    /// The bus after subscriber `h` took the oldest event from its mailbox.
    pub open spec fn take(self, h: u64) -> BusView
        recommends
            self.subscribers.contains_key(h),
            self.subscribers[h].mailbox.len() > 0,
    {
        let before = self.subscribers[h];
        BusView {
            subscribers: self.subscribers.insert(
                h,
                SubscriberView {
                    seen: before.seen.push(before.mailbox[0]),
                    mailbox: before.mailbox.drop_first(),
                    ..before
                },
            ),
            ..self
        }
    }
}

/// One subscription: a handle and the events that wait for its holder.
struct Subscription {
    handle: u64,
    pending: Vec<Message>,
    joined_at: Ghost<nat>,
    seen: Ghost<Seq<MessageView>>,
}

impl View for Subscription {
    type V = SubscriberView;

    closed spec fn view(&self) -> SubscriberView {
        SubscriberView {
            joined_at: self.joined_at@,
            seen: self.seen@,
            mailbox: views(self.pending@),
        }
    }
}

/// The bus itself.
pub struct MessageBus {
    inbound: Vec<Message>,
    capacity: usize,
    subscribers: Vec<Subscription>,
    next_handle: u64,
    published: Ghost<Seq<MessageView>>,
}

/// The views of a queue with one more event are the old views and that
/// event's view.
pub proof fn lemma_views_push(events: Seq<Message>, message: Message)
    ensures
        views(events.push(message)) == views(events).push(message@),
{
    assert(views(events.push(message)) =~= views(events).push(message@));
}

/// The views of a queue without its first event are the old views without
/// their first.
pub proof fn lemma_views_remove_first(events: Seq<Message>)
    requires
        events.len() > 0,
    ensures
        views(events.remove(0)) == views(events).drop_first(),
        views(events)[0] == events[0]@,
{
    assert(views(events.remove(0)) =~= views(events).drop_first());
}

impl MessageBus {
    /// Whether some subscription carries the handle `h`.
    spec fn has(&self, h: u64) -> bool {
        exists|i: int| 0 <= i < self.subscribers@.len() && self.subscribers@[i].handle == h
    }

    /// Where the subscription with the handle `h` is kept.
    spec fn slot(&self, h: u64) -> int {
        choose|i: int| 0 <= i < self.subscribers@.len() && self.subscribers@[i].handle == h
    }

    /// No two subscriptions share a handle, and every handle was given out.
    pub closed spec fn handles_distinct(&self) -> bool {
        &&& forall|i: int, j: int|
            0 <= i < self.subscribers@.len() && 0 <= j < self.subscribers@.len() && i != j
                ==> self.subscribers@[i].handle != self.subscribers@[j].handle
        &&& forall|i: int|
            0 <= i < self.subscribers@.len() ==> self.subscribers@[i].handle < self.next_handle
    }

    /// The bus is in a state that its operations maintain.
    pub open spec fn wf(&self) -> bool {
        &&& self.handles_distinct()
        &&& self@.consistent()
    }

    proof fn lemma_slot(&self, i: int)
        requires
            self.handles_distinct(),
            0 <= i < self.subscribers@.len(),
        ensures
            self.has(self.subscribers@[i].handle),
            self.slot(self.subscribers@[i].handle) == i,
    {
    }
}

impl View for MessageBus {
    type V = BusView;

    closed spec fn view(&self) -> BusView {
        BusView {
            capacity: self.capacity as nat,
            inbound: views(self.inbound@),
            published: self.published@,
            subscribers: Map::new(
                |h: u64| self.has(h),
                |h: u64| self.subscribers@[self.slot(h)]@,
            ),
            next_handle: self.next_handle as nat,
        }
    }
}

impl BusView {
    /// Taking in an event keeps the bus consistent while the queue has room.
    pub proof fn lemma_enqueue_consistent(self, message: MessageView)
        requires
            self.consistent(),
            self.inbound.len() < self.capacity,
        ensures
            self.enqueue(message).consistent(),
            self.enqueue(message).accepted() == self.accepted().push(message),
    {
        assert(self.enqueue(message).accepted() =~= self.accepted().push(message));
    }

    /// Publishing an event keeps the bus consistent and extends every
    /// subscriber's stream by that event.
    pub proof fn lemma_publish_consistent(self, message: MessageView)
        requires
            self.consistent(),
        ensures
            self.publish(message).consistent(),
            forall|h: u64| #[trigger]
                self.subscribers.contains_key(h) ==> self.publish(message).subscribers[h].stream()
                    == self.subscribers[h].stream().push(message),
            forall|h: u64| #[trigger]
                self.subscribers.contains_key(h) ==> self.publish(message).subscribers[h].joined_at
                    == self.subscribers[h].joined_at,
    {
        let after = self.publish(message);
        assert forall|h: u64| #[trigger] after.subscribers.contains_key(h) implies {
            &&& h < after.next_handle
            &&& after.subscribers[h].joined_at <= after.published.len()
            &&& after.subscribers[h].stream() == after.published.subrange(
                after.subscribers[h].joined_at as int,
                after.published.len() as int,
            )
            &&& after.subscribers[h].stream() == self.subscribers[h].stream().push(message)
        } by {
            assert(self.subscribers.contains_key(h));
            let before = self.subscribers[h];
            assert(after.subscribers[h].stream() =~= before.stream().push(message));
            assert(before.stream().push(message) =~= after.published.subrange(
                before.joined_at as int,
                after.published.len() as int,
            ));
        }
    }

    /// Rebroadcasting keeps the bus consistent and changes nothing in what
    /// the bus has taken in, nor its order.
    pub proof fn lemma_rebroadcast_consistent(self)
        requires
            self.consistent(),
            self.inbound.len() > 0,
        ensures
            self.rebroadcast().consistent(),
            self.rebroadcast().accepted() == self.accepted(),
            self.rebroadcast().published == self.published.push(self.inbound[0]),
            self.rebroadcast().inbound == self.inbound.drop_first(),
    {
        let shorter = BusView { inbound: self.inbound.drop_first(), ..self };
        shorter.lemma_publish_consistent(self.inbound[0]);
        assert(self.rebroadcast().accepted() =~= self.accepted());
    }
}

impl MessageBus {
    proof fn lemma_view_of_slots(&self)
        requires
            self.handles_distinct(),
        ensures
            forall|i: int|
                0 <= i < self.subscribers@.len() ==> {
                    &&& self@.subscribers.contains_key(#[trigger] self.subscribers@[i].handle)
                    &&& self@.subscribers[self.subscribers@[i].handle] == self.subscribers@[i]@
                },
            forall|h: u64| #[trigger]
                self@.subscribers.contains_key(h) ==> {
                    &&& 0 <= self.slot(h) < self.subscribers@.len()
                    &&& self.subscribers@[self.slot(h)].handle == h
                },
    {
        assert forall|i: int| 0 <= i < self.subscribers@.len() implies {
            &&& self@.subscribers.contains_key(#[trigger] self.subscribers@[i].handle)
            &&& self@.subscribers[self.subscribers@[i].handle] == self.subscribers@[i]@
        } by {
            self.lemma_slot(i);
        }
    }

    /// A bus without events or subscribers whose inbound queue holds at most
    /// `capacity` events.
    pub fn new(capacity: usize) -> (bus: MessageBus)
        ensures
            bus.wf(),
            bus@ == (BusView {
                capacity: capacity as nat,
                inbound: Seq::empty(),
                published: Seq::empty(),
                subscribers: Map::empty(),
                next_handle: 0,
            }),
    {
        let bus = MessageBus {
            inbound: Vec::new(),
            capacity,
            subscribers: Vec::new(),
            next_handle: 0,
            published: Ghost(Seq::empty()),
        };
        proof {
            assert(bus@.subscribers =~= Map::empty());
            assert(bus@.inbound =~= Seq::empty());
        }
        bus
    }

    /// The most events that the inbound queue holds at once.
    pub fn capacity(&self) -> (n: usize)
        ensures
            n == self@.capacity,
    {
        self.capacity
    }

    /// The number of events in the inbound queue.
    pub fn inbound_len(&self) -> (n: usize)
        ensures
            n == self@.inbound.len(),
    {
        self.inbound.len()
    }

    fn find(&self, h: u64) -> (r: Option<usize>)
        ensures
            match r {
                Some(i) => i < self.subscribers@.len() && self.subscribers@[i as int].handle == h,
                None => !self.has(h),
            },
    {
        let n: usize = self.subscribers.len();
        let mut i: usize = 0;
        while i < n
            invariant
                i <= n,
                n == self.subscribers@.len(),
                forall|j: int| 0 <= j < i ==> self.subscribers@[j].handle != h,
            decreases n - i,
        {
            if self.subscribers[i].handle == h {
                return Some(i);
            }
            i = i + 1;
        }
        None
    }

    /// Puts `message` at the back of the inbound queue. When the queue is
    /// full the bus stays as it is and the message comes back.
    pub fn enqueue(&mut self, message: Message) -> (r: Result<(), Message>)
        requires
            old(self).wf(),
        ensures
            final(self).wf(),
            old(self)@.inbound.len() < old(self)@.capacity ==> r is Ok && final(self)@ == old(
                self,
            )@.enqueue(message@),
            old(self)@.inbound.len() >= old(self)@.capacity ==> r == Err::<(), Message>(message)
                && final(self)@ == old(self)@,
    {
        if self.inbound.len() < self.capacity {
            proof {
                lemma_views_push(self.inbound@, message);
                old(self)@.lemma_enqueue_consistent(message@);
            }
            self.inbound.push(message);
            proof {
                assert(self@.subscribers =~= old(self)@.subscribers);
            }
            Ok(())
        } else {
            Err(message)
        }
    }
}

impl MessageBus {
    /// Publishes `message`: every current subscriber finds a copy at the back
    /// of its mailbox. Only the rebroadcast publishes, so that there is one
    /// order of publication, which is the order of arrival.
    fn publish(&mut self, message: Message)
        requires
            old(self).wf(),
        ensures
            final(self).wf(),
            final(self)@ == old(self)@.publish(message@),
    {
        let n: usize = self.subscribers.len();
        let mut i: usize = 0;
        while i < n
            invariant
                i <= n,
                n == self.subscribers@.len(),
                n == old(self).subscribers@.len(),
                self.inbound == old(self).inbound,
                self.capacity == old(self).capacity,
                self.next_handle == old(self).next_handle,
                self.published == old(self).published,
                forall|j: int|
                    0 <= j < n ==> {
                        &&& (#[trigger] self.subscribers@[j]).handle == old(
                            self,
                        ).subscribers@[j].handle
                        &&& self.subscribers@[j].joined_at == old(self).subscribers@[j].joined_at
                        &&& self.subscribers@[j].seen == old(self).subscribers@[j].seen
                    },
                forall|j: int|
                    0 <= j < i ==> views((#[trigger] self.subscribers@[j]).pending@) == views(
                        old(self).subscribers@[j].pending@,
                    ).push(message@),
                forall|j: int|
                    i <= j < n ==> (#[trigger] self.subscribers@[j]).pending == old(
                        self,
                    ).subscribers@[j].pending,
            decreases n - i,
        {
            let copy = message.clone();
            proof {
                lemma_views_push(self.subscribers@[i as int].pending@, copy);
            }
            self.subscribers[i].pending.push(copy);
            i = i + 1;
        }
        self.published = Ghost(self.published@.push(message@));
        proof {
            let target = old(self)@.publish(message@);
            old(self).lemma_view_of_slots();
            assert(self.handles_distinct());
            self.lemma_view_of_slots();
            assert forall|h: u64| self@.subscribers.contains_key(h) implies #[trigger]
                target.subscribers.contains_key(h) && self@.subscribers[h]
                == target.subscribers[h] by {
                let k = self.slot(h);
                assert(old(self).subscribers@[k].handle == h);
            }
            assert forall|h: u64| #[trigger]
                target.subscribers.contains_key(h) implies self@.subscribers.contains_key(h) by {
                let k = old(self).slot(h);
                assert(self.subscribers@[k].handle == h);
            }
            assert(self@.subscribers =~= target.subscribers);
            old(self)@.lemma_publish_consistent(message@);
        }
    }

    /// Moves the oldest inbound event to the broadcast side; `false` when the
    /// inbound queue is empty and nothing changes.
    pub fn rebroadcast_one(&mut self) -> (moved: bool)
        requires
            old(self).wf(),
        ensures
            final(self).wf(),
            moved == (old(self)@.inbound.len() > 0),
            moved ==> final(self)@ == old(self)@.rebroadcast(),
            !moved ==> final(self)@ == old(self)@,
    {
        if self.inbound.len() == 0 {
            return false;
        }
        proof {
            lemma_views_remove_first(self.inbound@);
        }
        let message = self.inbound.remove(0);
        proof {
            let shorter = BusView { inbound: old(self)@.inbound.drop_first(), ..old(self)@ };
            assert(self@.subscribers =~= old(self)@.subscribers);
            assert(self@ == shorter);
        }
        self.publish(message);
        true
    }

    /// Rebroadcasts until the inbound queue is empty; returns how many events
    /// that were.
    pub fn drain(&mut self) -> (count: usize)
        requires
            old(self).wf(),
        ensures
            final(self).wf(),
            final(self)@ == old(self)@.drained(),
            count == old(self)@.inbound.len(),
    {
        let total: usize = self.inbound.len();
        let mut count: usize = 0;
        while self.inbound.len() > 0
            invariant
                self.wf(),
                total == old(self)@.inbound.len(),
                self@.drained() == old(self)@.drained(),
                count + self@.inbound.len() == old(self)@.inbound.len(),
                self@.inbound.len() == self.inbound@.len(),
            decreases self@.inbound.len(),
        {
            self.rebroadcast_one();
            count = count + 1;
        }
        count
    }
}

impl BusView {
    /// A new subscriber keeps the bus consistent and starts with nothing
    /// delivered: what was published before it joined never reaches it.
    pub proof fn lemma_join_consistent(self)
        requires
            self.consistent(),
            self.next_handle < u64::MAX,
        ensures
            self.join().consistent(),
            !self.subscribers.contains_key(self.next_handle as u64),
            self.join().subscribers[self.next_handle as u64].stream() == Seq::<
                MessageView,
            >::empty(),
    {
        let h = self.next_handle as u64;
        let after = self.join();
        assert(after.subscribers[h].stream() =~= Seq::<MessageView>::empty());
        assert(after.subscribers[h].stream() =~= after.published.subrange(
            after.published.len() as int,
            after.published.len() as int,
        ));
    }

    /// Dropping a subscriber keeps the bus consistent.
    pub proof fn lemma_leave_consistent(self, h: u64)
        requires
            self.consistent(),
        ensures
            self.leave(h).consistent(),
    {
    }

    /// Taking an event from a mailbox keeps the bus consistent and leaves the
    /// subscriber's stream as it was.
    pub proof fn lemma_take_consistent(self, h: u64)
        requires
            self.consistent(),
            self.subscribers.contains_key(h),
            self.subscribers[h].mailbox.len() > 0,
        ensures
            self.take(h).consistent(),
            self.take(h).subscribers[h].stream() == self.subscribers[h].stream(),
    {
        let before = self.subscribers[h];
        let after = self.take(h).subscribers[h];
        assert(after.stream() =~= before.stream());
    }
}

impl MessageBus {
    /// Adds a subscriber and returns its handle; `None`, with the bus as it
    /// was, once every handle has been given out.
    pub fn subscribe(&mut self) -> (r: Option<u64>)
        requires
            old(self).wf(),
        ensures
            final(self).wf(),
            old(self)@.next_handle < u64::MAX ==> r == Some(old(self)@.next_handle as u64)
                && final(self)@ == old(self)@.join(),
            old(self)@.next_handle >= u64::MAX ==> r is None && final(self)@ == old(self)@,
    {
        if self.next_handle == u64::MAX {
            return None;
        }
        let handle: u64 = self.next_handle;
        let ghost joined_at = self.published@.len();
        self.subscribers.push(
            Subscription {
                handle,
                pending: Vec::new(),
                joined_at: Ghost(joined_at),
                seen: Ghost(Seq::empty()),
            },
        );
        self.next_handle = handle + 1;
        proof {
            let target = old(self)@.join();
            let last = old(self).subscribers@.len() as int;
            old(self).lemma_view_of_slots();
            assert(self.handles_distinct());
            self.lemma_view_of_slots();
            assert(views(self.subscribers@[last].pending@) =~= Seq::<MessageView>::empty());
            assert forall|h: u64| self@.subscribers.contains_key(h) implies #[trigger]
                target.subscribers.contains_key(h) && self@.subscribers[h]
                == target.subscribers[h] by {
                let k = self.slot(h);
                if k < last {
                    assert(old(self).subscribers@[k].handle == h);
                }
            }
            assert forall|h: u64| #[trigger]
                target.subscribers.contains_key(h) implies self@.subscribers.contains_key(h) by {
                if h == handle {
                    assert(self.subscribers@[last].handle == h);
                } else {
                    let k = old(self).slot(h);
                    assert(self.subscribers@[k].handle == h);
                }
            }
            assert(self@.subscribers =~= target.subscribers);
            old(self)@.lemma_join_consistent();
        }
        Some(handle)
    }

    /// Drops the subscriber `h` with whatever waits in its mailbox; `false`
    /// when there is no such subscriber and nothing changes.
    pub fn unsubscribe(&mut self, h: u64) -> (found: bool)
        requires
            old(self).wf(),
        ensures
            final(self).wf(),
            found == old(self)@.subscribers.contains_key(h),
            final(self)@ == old(self)@.leave(h),
    {
        proof {
            old(self).lemma_view_of_slots();
        }
        match self.find(h) {
            Some(i) => {
                self.subscribers.remove(i);
                proof {
                    let target = old(self)@.leave(h);
                    assert(self.handles_distinct());
                    self.lemma_view_of_slots();
                    assert forall|g: u64| self@.subscribers.contains_key(g) implies #[trigger]
                        target.subscribers.contains_key(g) && self@.subscribers[g]
                        == target.subscribers[g] by {
                        let k = self.slot(g);
                        if k < i {
                            assert(old(self).subscribers@[k].handle == g);
                        } else {
                            assert(old(self).subscribers@[k + 1].handle == g);
                        }
                    }
                    assert forall|g: u64| #[trigger]
                        target.subscribers.contains_key(g) implies self@.subscribers.contains_key(
                        g,
                    ) by {
                        let k = old(self).slot(g);
                        if k < i {
                            assert(self.subscribers@[k].handle == g);
                        } else {
                            assert(self.subscribers@[k - 1].handle == g);
                        }
                    }
                    assert(self@.subscribers =~= target.subscribers);
                    old(self)@.lemma_leave_consistent(h);
                }
                true
            },
            None => {
                proof {
                    assert(old(self)@.leave(h).subscribers =~= old(self)@.subscribers);
                }
                false
            },
        }
    }

    /// Takes the oldest event from the mailbox of subscriber `h`; `None`, with
    /// the bus as it was, when nothing waits there or there is no such
    /// subscriber.
    pub fn receive(&mut self, h: u64) -> (r: Option<Message>)
        requires
            old(self).wf(),
        ensures
            final(self).wf(),
            match r {
                Some(message) => {
                    &&& old(self)@.subscribers.contains_key(h)
                    &&& old(self)@.subscribers[h].mailbox.len() > 0
                    &&& message@ == old(self)@.subscribers[h].mailbox[0]
                    &&& final(self)@ == old(self)@.take(h)
                },
                None => {
                    &&& !(old(self)@.subscribers.contains_key(h) && old(
                        self,
                    )@.subscribers[h].mailbox.len() > 0)
                    &&& final(self)@ == old(self)@
                },
            },
    {
        proof {
            old(self).lemma_view_of_slots();
        }
        match self.find(h) {
            Some(i) => {
                if self.subscribers[i].pending.len() == 0 {
                    return None;
                }
                proof {
                    lemma_views_remove_first(self.subscribers@[i as int].pending@);
                }
                let message = self.subscribers[i].pending.remove(0);
                let ghost seen = self.subscribers@[i as int].seen@.push(message@);
                self.subscribers[i].seen = Ghost(seen);
                proof {
                    let target = old(self)@.take(h);
                    assert(self.handles_distinct());
                    self.lemma_view_of_slots();
                    assert forall|g: u64| self@.subscribers.contains_key(g) implies #[trigger]
                        target.subscribers.contains_key(g) && self@.subscribers[g]
                        == target.subscribers[g] by {
                        let k = self.slot(g);
                        assert(old(self).subscribers@[k].handle == g);
                    }
                    assert forall|g: u64| #[trigger]
                        target.subscribers.contains_key(g) implies self@.subscribers.contains_key(
                        g,
                    ) by {
                        if g != h {
                            let k = old(self).slot(g);
                            assert(self.subscribers@[k].handle == g);
                        }
                    }
                    assert(self@.subscribers =~= target.subscribers);
                    old(self)@.lemma_take_consistent(h);
                }
                Some(message)
            },
            None => None,
        }
    }
}

impl BusView {
    /// Draining publishes the inbound queue as it stands, oldest first: the
    /// queue ends empty, the published events grow by exactly the queued ones
    /// in their order, and so does the stream of every subscriber.
    pub proof fn lemma_drained(self)
        requires
            self.consistent(),
        ensures
            self.drained().consistent(),
            self.drained().inbound.len() == 0,
            self.drained().published == self.accepted(),
            self.drained().capacity == self.capacity,
            self.drained().next_handle == self.next_handle,
            self.drained().subscribers.dom() == self.subscribers.dom(),
            forall|h: u64| #[trigger]
                self.subscribers.contains_key(h) ==> self.drained().subscribers[h].stream()
                    == self.subscribers[h].stream() + self.inbound,
            forall|h: u64| #[trigger]
                self.subscribers.contains_key(h) ==> self.drained().subscribers[h].joined_at
                    == self.subscribers[h].joined_at,
        decreases self.inbound.len(),
    {
        if self.inbound.len() == 0 {
            assert(self.accepted() =~= self.published);
            assert forall|h: u64| #[trigger] self.subscribers.contains_key(h) implies {
                self.drained().subscribers[h].stream() == self.subscribers[h].stream()
                    + self.inbound
            } by {
                let stream = self.subscribers[h].stream();
                assert(stream + self.inbound =~= stream);
            }
        } else {
            let next = self.rebroadcast();
            let shorter = BusView { inbound: self.inbound.drop_first(), ..self };
            self.lemma_rebroadcast_consistent();
            shorter.lemma_publish_consistent(self.inbound[0]);
            next.lemma_drained();
            assert(next.subscribers.dom() =~= self.subscribers.dom());
            assert forall|h: u64| #[trigger] self.subscribers.contains_key(h) implies {
                self.drained().subscribers[h].stream() == self.subscribers[h].stream()
                    + self.inbound
            } by {
                let stream = self.subscribers[h].stream();
                assert(next.subscribers.contains_key(h));
                assert(stream.push(self.inbound[0]) + self.inbound.drop_first() =~= stream
                    + self.inbound);
            }
        }
    }

    /// First in, first out: the `k`-th event delivered to a subscriber is the
    /// event that the bus took in at place `joined_at + k`.
    pub proof fn lemma_stream_follows_arrival(self, h: u64, k: int)
        requires
            self.consistent(),
            self.subscribers.contains_key(h),
            0 <= k < self.subscribers[h].stream().len(),
        ensures
            self.subscribers[h].joined_at + k < self.published.len(),
            self.subscribers[h].stream()[k] == self.accepted()[self.subscribers[h].joined_at + k],
    {
    }

    /// Any two subscribers observe the events that both were delivered in the
    /// same relative order: if one was delivered `x` before `y`, so was the
    /// other.
    pub proof fn lemma_same_relative_order(
        self,
        a: u64,
        b: u64,
        x_at_a: int,
        y_at_a: int,
        x_at_b: int,
        y_at_b: int,
    )
        requires
            self.consistent(),
            self.subscribers.contains_key(a),
            self.subscribers.contains_key(b),
            0 <= x_at_a < self.subscribers[a].stream().len(),
            0 <= y_at_a < self.subscribers[a].stream().len(),
            0 <= x_at_b < self.subscribers[b].stream().len(),
            0 <= y_at_b < self.subscribers[b].stream().len(),
            self.subscribers[a].joined_at + x_at_a == self.subscribers[b].joined_at + x_at_b,
            self.subscribers[a].joined_at + y_at_a == self.subscribers[b].joined_at + y_at_b,
        ensures
            self.subscribers[a].stream()[x_at_a] == self.subscribers[b].stream()[x_at_b],
            self.subscribers[a].stream()[y_at_a] == self.subscribers[b].stream()[y_at_b],
            (x_at_a < y_at_a) == (x_at_b < y_at_b),
    {
        self.lemma_stream_follows_arrival(a, x_at_a);
        self.lemma_stream_follows_arrival(a, y_at_a);
        self.lemma_stream_follows_arrival(b, x_at_b);
        self.lemma_stream_follows_arrival(b, y_at_b);
    }
}

impl BusView {
    /// The bus with `message` taken in: where the inbound queue is full, what
    /// waits there is rebroadcast first, as a producer that waits for room
    /// would see it happen.
    pub open spec fn take_in(self, message: MessageView) -> BusView {
        if self.inbound.len() < self.capacity {
            self.enqueue(message)
        } else {
            self.drained().enqueue(message)
        }
    }

    /// Taking an event in keeps the bus consistent, keeps its subscribers and
    /// puts the event behind everything that the bus had taken in before.
    pub proof fn lemma_take_in(self, message: MessageView)
        requires
            self.consistent(),
            self.capacity > 0,
        ensures
            self.take_in(message).consistent(),
            self.take_in(message).capacity == self.capacity,
            self.take_in(message).next_handle == self.next_handle,
            self.take_in(message).subscribers.dom() == self.subscribers.dom(),
            self.take_in(message).accepted() == self.accepted().push(message),
            forall|h: u64| #[trigger]
                self.subscribers.contains_key(h) ==> self.take_in(message).subscribers[h].joined_at
                    == self.subscribers[h].joined_at,
    {
        if self.inbound.len() < self.capacity {
            self.lemma_enqueue_consistent(message);
        } else {
            self.lemma_drained();
            self.drained().lemma_enqueue_consistent(message);
            assert(self.drained().accepted() =~= self.accepted());
        }
    }

    /// The bus with `events` taken in one after the other.
    pub open spec fn take_in_all(self, events: Seq<MessageView>) -> BusView
        decreases events.len(),
    {
        if events.len() == 0 {
            self
        } else {
            self.take_in(events[0]).take_in_all(events.drop_first())
        }
    }

    /// Taking events in keeps the bus consistent, keeps its subscribers and
    /// puts the events, in their order, behind everything that the bus had
    /// taken in before.
    pub proof fn lemma_take_in_all(self, events: Seq<MessageView>)
        requires
            self.consistent(),
            self.capacity > 0,
        ensures
            self.take_in_all(events).consistent(),
            self.take_in_all(events).capacity == self.capacity,
            self.take_in_all(events).subscribers.dom() == self.subscribers.dom(),
            self.take_in_all(events).accepted() == self.accepted() + events,
            forall|h: u64| #[trigger]
                self.subscribers.contains_key(h) ==> self.take_in_all(
                    events,
                ).subscribers[h].joined_at == self.subscribers[h].joined_at,
        decreases events.len(),
    {
        if events.len() == 0 {
            assert(self.accepted() + events =~= self.accepted());
        } else {
            let next = self.take_in(events[0]);
            self.lemma_take_in(events[0]);
            next.lemma_take_in_all(events.drop_first());
            assert(self.accepted().push(events[0]) + events.drop_first() =~= self.accepted()
                + events);
            assert forall|h: u64| #[trigger] self.subscribers.contains_key(h) implies {
                self.take_in_all(events).subscribers[h].joined_at
                    == self.subscribers[h].joined_at
            } by {
                assert(next.subscribers.dom().contains(h));
                assert(next.subscribers.contains_key(h));
            }
        }
    }

    /// First in, first out, for every subscriber alike: whatever events are
    /// taken in, in whatever number, once they are rebroadcast every
    /// subscriber has been delivered what waited on the inbound queue and
    /// then those events, all in the order in which the bus took them in.
    pub proof fn lemma_fifo(self, events: Seq<MessageView>)
        requires
            self.consistent(),
            self.capacity > 0,
        ensures
            self.take_in_all(events).drained().consistent(),
            self.take_in_all(events).drained().published == self.accepted() + events,
            forall|h: u64| #[trigger]
                self.subscribers.contains_key(h) ==> {
                    &&& self.take_in_all(events).drained().subscribers.contains_key(h)
                    &&& self.take_in_all(events).drained().subscribers[h].stream()
                        == self.subscribers[h].stream() + self.inbound + events
                },
    {
        let taken = self.take_in_all(events);
        let after = taken.drained();
        self.lemma_take_in_all(events);
        taken.lemma_drained();
        assert forall|h: u64| #[trigger] self.subscribers.contains_key(h) implies {
            &&& after.subscribers.contains_key(h)
            &&& after.subscribers[h].stream() == self.subscribers[h].stream() + self.inbound
                + events
        } by {
            assert(taken.subscribers.dom().contains(h));
            assert(taken.subscribers.contains_key(h));
            assert(after.subscribers.dom().contains(h));
            assert(after.subscribers.contains_key(h));
            let joined = self.subscribers[h].joined_at as int;
            let all = self.accepted() + events;
            assert(after.subscribers[h].stream() == all.subrange(joined, all.len() as int));
            assert(self.subscribers[h].stream() == self.published.subrange(
                joined,
                self.published.len() as int,
            ));
            assert(all.subrange(joined, all.len() as int) =~= self.published.subrange(
                joined,
                self.published.len() as int,
            ) + self.inbound + events);
        }
    }
}

impl MessageBus {
    /// Takes `message` in at the back of the inbound queue, rebroadcasting
    /// what waits there first where the queue is full.
    pub fn take_in(&mut self, message: Message)
        requires
            old(self).wf(),
            old(self)@.capacity > 0,
        ensures
            final(self).wf(),
            final(self)@ == old(self)@.take_in(message@),
    {
        if self.inbound.len() >= self.capacity {
            proof {
                self@.lemma_drained();
            }
            self.drain();
        }
        let _ = self.enqueue(message);
    }
}

impl MessageBus {
    /// How many events wait in the mailbox of subscriber `h`; 0 where there
    /// is no such subscriber.
    pub fn waiting(&self, h: u64) -> (n: usize)
        requires
            self.wf(),
        ensures
            n == if self@.subscribers.contains_key(h) {
                self@.subscribers[h].mailbox.len()
            } else {
                0
            },
    {
        proof {
            self.lemma_view_of_slots();
        }
        match self.find(h) {
            Some(i) => self.subscribers[i].pending.len(),
            None => 0,
        }
    }
}

} // verus!
