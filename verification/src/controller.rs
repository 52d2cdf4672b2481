//! The controller: the local identity, the one message bus, the sessions and
//! the registry of the peers that have completed their handshake.
//!
//! The controller owns no socket either. Its driver accepts and dials, reads
//! and writes, and reports to the controller what happened to which session.

use crate::address::{Address, Host};
use crate::bus::{BusView, MessageBus};
use crate::message::{Message, MessageView};
use crate::peer::{ActionView, EventView, Peer, PeerAction, PeerEvent, PeerView, Phase};
use crate::table::{lemma_without, without, Table};
use crate::wire::{PeerId, PeerInfo, PeerInfoView};
use vstd::prelude::*;

verus! {

/// The most events that wait on the inbound queue at once.
pub const INBOUND_CAPACITY: usize = 100;

/// Why a connection attempt came to nothing.
#[derive(Debug, Clone, Copy, PartialEq, Eq, Structural)]
pub enum ConnectError {
    /// The address given was none.
    BadAddress,
    /// Nobody answered at this address.
    DialFailed(Address),
}

/// What the registry holds of a peer.
struct RosterEntry {
    info: PeerInfo,
    subscription: u64,
}

/// The mathematical content of a [`RosterEntry`].
pub struct EntryView {
    /// What the peer told of itself in the handshake.
    pub info: PeerInfoView,
    /// The handle under which the peer's session is subscribed to the bus.
    pub subscription: u64,
}

impl View for RosterEntry {
    type V = EntryView;

    closed spec fn view(&self) -> EntryView {
        EntryView { info: self.info@, subscription: self.subscription }
    }
}

/// The mathematical content of a [`NetworkController`].
pub struct ControllerView {
    /// Where the controller listens.
    pub address: Address,
    /// Whether the listener has reported the address that it was bound to.
    pub bound: bool,
    pub local_id: PeerId,
    pub local_nick: Seq<char>,
    pub bus: BusView,
    /// Every session that has begun and not ended, by its handle.
    pub sessions: Map<u64, PeerView>,
    /// The peers that have completed their handshake, by the handle of their
    /// session.
    pub registry: Map<u64, EntryView>,
    /// The handles of the registry in the order in which the peers came in.
    pub roster: Seq<u64>,
    /// No session handle at or above this one has been given out.
    pub next_session: nat,
}

impl ControllerView {
    /// What the controller maintains. Every session introduces this instance
    /// and none that is kept has ended. The registry holds exactly the
    /// sessions that have completed their handshake, each with what its peer
    /// told and with a bus subscription of its own.
    pub open spec fn consistent(self) -> bool {
        &&& self.bus.consistent()
        &&& self.bus.capacity > 0
        &&& self.roster.no_duplicates()
        &&& forall|h: u64| self.roster.contains(h) <==> #[trigger] self.registry.contains_key(h)
        &&& forall|h: u64| #[trigger]
            self.sessions.contains_key(h) ==> {
                &&& h < self.next_session
                &&& self.sessions[h].wf()
                &&& self.sessions[h].phase != Phase::Disconnected
                &&& self.sessions[h].local.id == self.local_id
                &&& self.sessions[h].local.nickname == self.local_nick
            }
        &&& forall|h: u64|
            #[trigger] self.registry.contains_key(h) <==> self.sessions.contains_key(h)
                && self.sessions[h].is_live()
        &&& forall|h: u64| #[trigger]
            self.registry.contains_key(h) ==> {
                &&& self.sessions[h].remote == Some(self.registry[h].info)
                &&& self.bus.subscribers.contains_key(self.registry[h].subscription)
            }
        &&& forall|g: u64, h: u64|
            self.registry.contains_key(g) && self.registry.contains_key(h) && g != h
                ==> self.registry[g].subscription != self.registry[h].subscription
    }

    /// The controller with `message` taken in by the bus.
    pub open spec fn take_in(self, message: MessageView) -> ControllerView {
        ControllerView { bus: self.bus.take_in(message), ..self }
    }

    /// What this instance tells a peer of itself when its data channel is
    /// bound to `udp_port`.
    pub open spec fn introduction(self, udp_port: u16) -> PeerInfoView {
        PeerInfoView { id: self.local_id, nickname: self.local_nick, udp_port }
    }

    /// The controller with a new session under the next free handle, for a
    /// peer that is reached at `peer`; the session has handed out its
    /// handshake record.
    pub open spec fn opened(self, udp_port: u16, peer: Address) -> ControllerView {
        ControllerView {
            sessions: self.sessions.insert(
                self.next_session as u64,
                PeerView {
                    phase: Phase::HandshakeSent,
                    local: self.introduction(udp_port),
                    address: peer,
                    remote: None,
                    udp_pong_ok: false,
                },
            ),
            next_session: self.next_session + 1,
            ..self
        }
    }

    /// The controller without the session `h`: it is gone from the sessions
    /// and from the registry, and its bus subscription is dropped.
    pub open spec fn dropped(self, h: u64) -> ControllerView {
        ControllerView {
            sessions: self.sessions.remove(h),
            registry: self.registry.remove(h),
            roster: without(self.roster, h),
            bus: if self.registry.contains_key(h) {
                self.bus.leave(self.registry[h].subscription)
            } else {
                self.bus
            },
            ..self
        }
    }

    /// The controller with the peer of session `h` entered in the registry
    /// and subscribed to the bus.
    pub open spec fn registered(self, h: u64, info: PeerInfoView) -> ControllerView {
        ControllerView {
            registry: self.registry.insert(
                h,
                EntryView { info, subscription: self.bus.next_handle as u64 },
            ),
            roster: self.roster.push(h),
            bus: self.bus.join(),
            ..self
        }
    }

    /// What the controller does with an event for session `h`. The session
    /// takes its step. What it wants published is taken in by the bus; a
    /// session whose handshake has succeeded is registered and subscribed; a
    /// session that has ended is dropped in the same step, and the notice of
    /// its departure is taken in by the bus.
    pub open spec fn peer_event(self, h: u64, event: EventView) -> (ControllerView, ActionView) {
        if !self.sessions.contains_key(h) {
            (self, ActionView::Idle)
        } else {
            let (peer, action) = self.sessions[h].step(event);
            let kept = ControllerView { sessions: self.sessions.insert(h, peer), ..self };
            match action {
                ActionView::Publish(message) => (kept.take_in(message), action),
                ActionView::Leave(notice) => (self.dropped(h).take_in(notice), action),
                ActionView::Abort => (self.dropped(h), action),
                ActionView::ConnectUdp(_) => if self.bus.next_handle < u64::MAX {
                    (kept.registered(h, peer.remote->0), action)
                } else {
                    (self.dropped(h), ActionView::Abort)
                },
                _ => (kept, action),
            }
        }
    }

    /// What the controller does when session `h` is asked to serve the bus:
    /// while it relays and an event waits in its mailbox, the oldest such
    /// event is taken out and given to the session.
    pub open spec fn deliver(self, h: u64) -> (ControllerView, ActionView) {
        if self.registry.contains_key(h) && self.sessions[h].phase == Phase::Relaying
            && self.bus.subscribers[self.registry[h].subscription].mailbox.len() > 0 {
            let subscription = self.registry[h].subscription;
            let message = self.bus.subscribers[subscription].mailbox[0];
            ControllerView { bus: self.bus.take(subscription), ..self }.peer_event(
                h,
                EventView::Broadcast(message),
            )
        } else {
            (self, ActionView::Idle)
        }
    }
}

impl ControllerView {
    /// Taking an event in keeps the controller consistent.
    pub proof fn lemma_take_in_consistent(self, message: MessageView)
        requires
            self.consistent(),
        ensures
            self.take_in(message).consistent(),
    {
        self.bus.lemma_take_in(message);
        let after = self.take_in(message);
        assert forall|h: u64| #[trigger] after.registry.contains_key(h) implies {
            after.bus.subscribers.contains_key(after.registry[h].subscription)
        } by {
            assert(self.bus.subscribers.dom().contains(self.registry[h].subscription));
        }
    }

    /// Beginning a session keeps the controller consistent.
    pub proof fn lemma_opened_consistent(self, udp_port: u16, peer: Address)
        requires
            self.consistent(),
            self.next_session < u64::MAX,
        ensures
            self.opened(udp_port, peer).consistent(),
    {
        let after = self.opened(udp_port, peer);
        assert(!self.sessions.contains_key(self.next_session as u64));
        assert forall|h: u64| #[trigger] after.registry.contains_key(h) implies {
            after.sessions.contains_key(h) && after.sessions[h].is_live()
        } by {
            assert(self.sessions.contains_key(h));
        }
    }

    /// Dropping a session keeps the controller consistent.
    pub proof fn lemma_dropped_consistent(self, h: u64)
        requires
            self.consistent(),
        ensures
            self.dropped(h).consistent(),
    {
        let after = self.dropped(h);
        lemma_without(self.roster, h);
        if self.registry.contains_key(h) {
            self.bus.lemma_leave_consistent(self.registry[h].subscription);
        }
        assert forall|g: u64| #[trigger] after.registry.contains_key(g) implies {
            &&& after.sessions[g].remote == Some(after.registry[g].info)
            &&& after.bus.subscribers.contains_key(after.registry[g].subscription)
        } by {
            assert(self.registry.contains_key(g));
        }
    }

    /// Registering the peer of a session whose handshake has just succeeded
    /// keeps the controller consistent.
    pub proof fn lemma_registered_consistent(self, h: u64, peer: PeerView)
        requires
            self.consistent(),
            self.sessions.contains_key(h),
            !self.sessions[h].is_live(),
            peer.wf(),
            peer.phase == Phase::HandshakeReceived,
            peer.local == self.sessions[h].local,
            self.bus.next_handle < u64::MAX,
        ensures
            (ControllerView { sessions: self.sessions.insert(h, peer), ..self }).registered(
                h,
                peer.remote->0,
            ).consistent(),
    {
        let kept = ControllerView { sessions: self.sessions.insert(h, peer), ..self };
        let after = kept.registered(h, peer.remote->0);
        let fresh = self.bus.next_handle as u64;
        self.bus.lemma_join_consistent();
        assert(!self.registry.contains_key(h));
        assert(!self.roster.contains(h));
        assert forall|k: u64| after.roster.contains(k) <==> #[trigger] after.registry.contains_key(
            k,
        ) by {
            if after.roster.contains(k) {
                let i = choose|i: int| 0 <= i < after.roster.len() && after.roster[i] == k;
                if i < self.roster.len() {
                    assert(self.roster[i] == k);
                    assert(self.roster.contains(k));
                }
            }
            if after.registry.contains_key(k) {
                if k == h {
                    assert(after.roster[self.roster.len() as int] == k);
                } else {
                    assert(self.roster.contains(k));
                    let i = choose|i: int| 0 <= i < self.roster.len() && self.roster[i] == k;
                    assert(after.roster[i] == k);
                }
            }
        }
        assert forall|g: u64| #[trigger] after.registry.contains_key(g) implies {
            &&& after.sessions[g].remote == Some(after.registry[g].info)
            &&& after.bus.subscribers.contains_key(after.registry[g].subscription)
        } by {
            if g != h {
                assert(self.registry.contains_key(g));
            }
        }
        assert forall|g: u64, k: u64|
            after.registry.contains_key(g) && after.registry.contains_key(k) && g != k implies {
            after.registry[g].subscription != after.registry[k].subscription
        } by {
            if g != h {
                assert(self.registry.contains_key(g));
                assert(self.bus.subscribers.contains_key(self.registry[g].subscription));
            }
            if k != h {
                assert(self.registry.contains_key(k));
                assert(self.bus.subscribers.contains_key(self.registry[k].subscription));
            }
        }
    }

    /// Whatever is reported of whichever session, the controller stays
    /// consistent: the registry still holds exactly the sessions that have
    /// completed their handshake and have not ended.
    pub proof fn lemma_peer_event_consistent(self, h: u64, event: EventView)
        requires
            self.consistent(),
        ensures
            self.peer_event(h, event).0.consistent(),
    {
        if self.sessions.contains_key(h) {
            let before = self.sessions[h];
            let (peer, action) = before.step(event);
            let kept = ControllerView { sessions: self.sessions.insert(h, peer), ..self };
            before.lemma_step_keeps_wf(event);
            before.lemma_step_keeps_facts(event);
            before.lemma_leave_names_the_peer(event);
            match action {
                ActionView::Leave(notice) => {
                    self.lemma_dropped_consistent(h);
                    self.dropped(h).lemma_take_in_consistent(notice);
                },
                ActionView::Abort => {
                    self.lemma_dropped_consistent(h);
                },
                ActionView::ConnectUdp(_) => {
                    if self.bus.next_handle < u64::MAX {
                        self.lemma_registered_consistent(h, peer);
                    } else {
                        self.lemma_dropped_consistent(h);
                    }
                },
                ActionView::Publish(message) => {
                    self.lemma_kept_consistent(h, peer);
                    kept.lemma_take_in_consistent(message);
                },
                _ => {
                    self.lemma_kept_consistent(h, peer);
                },
            }
        }
    }

    /// A session that moves on without joining or leaving the registry keeps
    /// the controller consistent.
    pub proof fn lemma_kept_consistent(self, h: u64, peer: PeerView)
        requires
            self.consistent(),
            self.sessions.contains_key(h),
            peer.wf(),
            peer.phase != Phase::Disconnected,
            peer.local == self.sessions[h].local,
            peer.remote == self.sessions[h].remote,
            peer.is_live() == self.sessions[h].is_live(),
        ensures
            (ControllerView { sessions: self.sessions.insert(h, peer), ..self }).consistent(),
    {
        let kept = ControllerView { sessions: self.sessions.insert(h, peer), ..self };
        assert forall|g: u64| #[trigger] kept.registry.contains_key(g) implies {
            &&& kept.sessions[g].remote == Some(kept.registry[g].info)
            &&& kept.bus.subscribers.contains_key(kept.registry[g].subscription)
        } by {
            assert(self.registry.contains_key(g));
        }
    }
}

impl ControllerView {
    /// The handles of the sessions that have completed their handshake and
    /// have not ended.
    pub open spec fn live_sessions(self) -> Set<u64> {
        Set::new(|h: u64| self.sessions.contains_key(h) && self.sessions[h].is_live())
    }

    /// The registry has no orphans and misses nobody: its entries are exactly
    /// the live sessions, and there are as many of the one as of the other.
    pub proof fn lemma_no_orphans(self)
        requires
            self.consistent(),
        ensures
            self.registry.dom() == self.live_sessions(),
            self.live_sessions().finite(),
            self.live_sessions().len() == self.roster.len(),
    {
        assert(self.registry.dom() =~= self.live_sessions());
        assert(self.roster.to_set() =~= self.registry.dom());
        self.roster.unique_seq_to_set();
        vstd::seq_lib::seq_to_set_is_finite(self.roster);
    }

    /// Taking an event out of a session's mailbox keeps the controller
    /// consistent.
    pub proof fn lemma_taken_consistent(self, subscription: u64)
        requires
            self.consistent(),
            self.bus.subscribers.contains_key(subscription),
            self.bus.subscribers[subscription].mailbox.len() > 0,
        ensures
            (ControllerView { bus: self.bus.take(subscription), ..self }).consistent(),
    {
        self.bus.lemma_take_consistent(subscription);
    }

    /// Serving the bus keeps the controller consistent, and what goes out to
    /// the peer, if anything, is the chat line that was waiting, which
    /// somebody else has sent.
    pub proof fn lemma_deliver(self, h: u64)
        requires
            self.consistent(),
        ensures
            self.deliver(h).0.consistent(),
            self.deliver(h).1 is Idle || self.deliver(h).1 is SendChat,
            self.deliver(h).1 matches ActionView::SendChat(bytes) ==> {
                &&& self.registry.contains_key(h)
                &&& self.bus.subscribers[self.registry[h].subscription].mailbox[0]
                    matches MessageView::TextChat(sender, text)
                &&& sender != self.registry[h].info.id
                &&& bytes == crate::envelope::control_wire(
                    crate::envelope::PeerMessageTcpView::ChatEvent(sender, text),
                )
            },
    {
        if self.registry.contains_key(h) && self.sessions[h].phase == Phase::Relaying
            && self.bus.subscribers[self.registry[h].subscription].mailbox.len() > 0 {
            let subscription = self.registry[h].subscription;
            let message = self.bus.subscribers[subscription].mailbox[0];
            let taken = ControllerView { bus: self.bus.take(subscription), ..self };
            self.lemma_taken_consistent(subscription);
            taken.lemma_peer_event_consistent(h, EventView::Broadcast(message));
            self.sessions[h].lemma_no_echo(EventView::Broadcast(message));
        }
    }
}

/// The controller of one running instance.
pub struct NetworkController {
    address: Address,
    bound: bool,
    local_id: PeerId,
    local_nick: String,
    bus: MessageBus,
    sessions: Table<Peer>,
    registry: Table<RosterEntry>,
    next_session: u64,
}

impl View for NetworkController {
    type V = ControllerView;

    closed spec fn view(&self) -> ControllerView {
        ControllerView {
            address: self.address,
            bound: self.bound,
            local_id: self.local_id,
            local_nick: self.local_nick@,
            bus: self.bus@,
            sessions: self.sessions@.map_values(|peer: Peer| peer@),
            registry: self.registry@.map_values(|entry: RosterEntry| entry@),
            roster: self.registry.order(),
            next_session: self.next_session as nat,
        }
    }
}

/// `Uuid::new_v4`: a random identifier, of which nothing is known
/// beforehand.
#[verifier::external_body]
fn fresh_id() -> (id: PeerId) {
    uuid::Uuid::new_v4().to_u128_le()
}

impl NetworkController {
    /// The controller is in a state that its operations maintain.
    pub closed spec fn wf(&self) -> bool {
        &&& self.bus.wf()
        &&& self.sessions.wf()
        &&& self.registry.wf()
        &&& self@.consistent()
    }

    /// What [`wf`](Self::wf) says of the controller's content.
    pub proof fn lemma_wf(&self)
        requires
            self.wf(),
        ensures
            self@.consistent(),
    {
    }

    /// A controller under a fresh identifier that is to listen on every local
    /// interface at `port_num`, where 0 stands for a port of the system's
    /// choice. It starts without peers, subscribers or events.
    pub fn new_with_port_and_username(port_num: u16, username: String) -> (controller:
        NetworkController)
        ensures
            controller.wf(),
            controller@ == (ControllerView {
                address: Address { host: Host::V4(0), port: port_num },
                bound: false,
                local_id: controller@.local_id,
                local_nick: username@,
                bus: BusView {
                    capacity: INBOUND_CAPACITY as nat,
                    inbound: Seq::empty(),
                    published: Seq::empty(),
                    subscribers: Map::empty(),
                    next_handle: 0,
                },
                sessions: Map::empty(),
                registry: Map::empty(),
                roster: Seq::empty(),
                next_session: 0,
            }),
    {
        let controller = NetworkController {
            address: Address::any(port_num),
            bound: false,
            local_id: fresh_id(),
            local_nick: username,
            bus: MessageBus::new(INBOUND_CAPACITY),
            sessions: Table::new(),
            registry: Table::new(),
            next_session: 0,
        };
        proof {
            assert(controller@.sessions =~= Map::empty());
            assert(controller@.registry =~= Map::empty());
        }
        controller
    }

    /// The identifier of this instance.
    pub fn get_local_id(&self) -> (id: PeerId)
        ensures
            id == self@.local_id,
    {
        self.local_id
    }

    /// The nickname of this instance.
    pub fn get_local_nick(&self) -> (nick: String)
        ensures
            nick@ == self@.local_nick,
    {
        self.local_nick.clone()
    }

    /// Where this instance listens.
    pub fn get_address(&self) -> (address: Address)
        ensures
            address == self@.address,
    {
        self.address
    }

    /// Notes the address that the listener was bound to. The address is
    /// written once: a second report changes nothing and is answered `false`.
    pub fn set_address(&mut self, address: Address) -> (written: bool)
        requires
            old(self).wf(),
        ensures
            final(self).wf(),
            written == !old(self)@.bound,
            written ==> final(self)@ == (ControllerView { address, bound: true, ..old(self)@ }),
            !written ==> final(self)@ == old(self)@,
    {
        if self.bound {
            false
        } else {
            self.address = address;
            self.bound = true;
            true
        }
    }

    /// Where the data channel of a new session is to be bound: on the
    /// interface that the controller listens on, at a port of the system's
    /// choice.
    pub fn udp_bind_address(&self) -> (address: Address)
        ensures
            address == (Address { host: self@.address.host, port: 0 }),
    {
        self.address.with_port(0)
    }
}

impl NetworkController {
    /// Says what became of a connection attempt: `target` is the address as
    /// far as one could be read from what the user gave, and `dialed` whether
    /// somebody answered there. Nothing changes either way.
    pub fn connect_to(&self, target: Option<Address>, dialed: bool) -> (r: Result<
        Address,
        ConnectError,
    >)
        ensures
            r == match target {
                None => Err::<Address, ConnectError>(ConnectError::BadAddress),
                Some(address) => if dialed {
                    Ok::<Address, ConnectError>(address)
                } else {
                    Err::<Address, ConnectError>(ConnectError::DialFailed(address))
                },
            },
    {
        match target {
            None => Err(ConnectError::BadAddress),
            Some(address) => {
                if dialed {
                    Ok(address)
                } else {
                    Err(ConnectError::DialFailed(address))
                }
            },
        }
    }

    /// Puts an event on the inbound queue, whoever has produced it. Nobody
    /// waits for its delivery and nobody confirms it.
    pub fn server_send(&mut self, message: Message)
        requires
            old(self).wf(),
        ensures
            final(self).wf(),
            final(self)@ == old(self)@.take_in(message@),
    {
        proof {
            self@.bus.lemma_take_in(message@);
        }
        self.bus.take_in(message);
    }

    /// Puts a chat line of this instance on the inbound queue.
    pub fn send_text_message(&mut self, text: String)
        requires
            old(self).wf(),
        ensures
            final(self).wf(),
            final(self)@ == old(self)@.take_in(
                MessageView::TextChat(old(self)@.local_id, text@),
            ),
    {
        self.server_send(Message::TextChat(self.local_id, text));
    }

    /// Rebroadcasts everything that waits on the inbound queue, oldest first;
    /// returns how many events that were.
    pub fn start_mpsc(&mut self) -> (count: usize)
        requires
            old(self).wf(),
        ensures
            final(self).wf(),
            final(self)@ == (ControllerView { bus: old(self)@.bus.drained(), ..old(self)@ }),
            count == old(self)@.bus.inbound.len(),
    {
        proof {
            self@.bus.lemma_drained();
        }
        self.bus.drain()
    }

    /// A new subscription to the bus, for whoever wants to watch the events:
    /// its handle, or `None` once every handle has been given out.
    pub fn get_broadcast_receiver(&mut self) -> (r: Option<u64>)
        requires
            old(self).wf(),
        ensures
            final(self).wf(),
            old(self)@.bus.next_handle < u64::MAX ==> r == Some(
                old(self)@.bus.next_handle as u64,
            ) && final(self)@ == (ControllerView { bus: old(self)@.bus.join(), ..old(self)@ }),
            old(self)@.bus.next_handle >= u64::MAX ==> r is None && final(self)@ == old(self)@,
    {
        proof {
            if self@.bus.next_handle < u64::MAX {
                self@.bus.lemma_join_consistent();
            }
        }
        self.bus.subscribe()
    }
}

impl NetworkController {
    /// Takes the oldest event from the mailbox of the bus subscriber
    /// `subscription`; `None`, with nothing changed, when nothing waits there
    /// or there is no such subscriber.
    pub fn next_message(&mut self, subscription: u64) -> (r: Option<Message>)
        requires
            old(self).wf(),
        ensures
            final(self).wf(),
            match r {
                Some(message) => {
                    &&& old(self)@.bus.subscribers.contains_key(subscription)
                    &&& old(self)@.bus.subscribers[subscription].mailbox.len() > 0
                    &&& message@ == old(self)@.bus.subscribers[subscription].mailbox[0]
                    &&& final(self)@ == (ControllerView {
                        bus: old(self)@.bus.take(subscription),
                        ..old(self)@
                    })
                },
                None => {
                    &&& !(old(self)@.bus.subscribers.contains_key(subscription) && old(
                        self,
                    )@.bus.subscribers[subscription].mailbox.len() > 0)
                    &&& final(self)@ == old(self)@
                },
            },
    {
        self.bus.receive(subscription)
    }

    /// Begins a session for a connection that was accepted or dialed: `peer`
    /// is where the control channel leads, and `udp_port` the local port
    /// that the session's data channel is bound to. Returns the handle of the
    /// session and the handshake record to send, or `None`, with nothing
    /// changed, once every handle has been given out.
    pub fn process_new_peer(&mut self, udp_port: u16, peer: Address) -> (r: Option<
        (u64, PeerAction),
    >)
        requires
            old(self).wf(),
        ensures
            final(self).wf(),
            match r {
                Some(begun) => {
                    &&& old(self)@.next_session < u64::MAX
                    &&& begun.0 == old(self)@.next_session
                    &&& begun.1@ == ActionView::SendHandshake(
                        crate::wire::handshake_wire(old(self)@.introduction(udp_port)),
                    )
                    &&& final(self)@ == old(self)@.opened(udp_port, peer)
                },
                None => old(self)@.next_session >= u64::MAX && final(self)@ == old(self)@,
            },
    {
        if self.next_session == u64::MAX {
            return None;
        }
        let handle: u64 = self.next_session;
        proof {
            assert(!self@.sessions.contains_key(handle));
            assert(!self.sessions@.contains_key(handle));
        }
        let local = PeerInfo { id: self.local_id, nickname: self.local_nick.clone(), udp_port };
        let mut session = Peer::new(local, peer);
        let action = session.step(&PeerEvent::Start);
        let back = self.sessions.insert(handle, session);
        self.next_session = handle + 1;
        proof {
            assert(back is None);
            assert(self@.sessions =~= old(self)@.opened(udp_port, peer).sessions);
        }
        Some((handle, action))
    }
}

impl NetworkController {
    /// Drops what the registry and the bus hold of session `handle`.
    fn forget(&mut self, handle: u64)
        requires
            old(self).bus.wf(),
            old(self).registry.wf(),
        ensures
            final(self).bus.wf(),
            final(self).registry.wf(),
            final(self).registry@ == old(self).registry@.remove(handle),
            final(self).registry.order() == without(old(self).registry.order(), handle),
            final(self).bus@ == if old(self).registry@.contains_key(handle) {
                old(self).bus@.leave(old(self).registry@[handle]@.subscription)
            } else {
                old(self).bus@
            },
            final(self).sessions == old(self).sessions,
            final(self).address == old(self).address,
            final(self).bound == old(self).bound,
            final(self).local_id == old(self).local_id,
            final(self).local_nick == old(self).local_nick,
            final(self).next_session == old(self).next_session,
    {
        match self.registry.remove(handle) {
            Some(entry) => {
                self.bus.unsubscribe(entry.subscription);
            },
            None => {},
        }
    }

    /// Reports `event` of session `handle` and returns what is to be done
    /// for it. The session takes its step; what it wants published and the
    /// notice of its departure have been taken in by the bus on return, so
    /// that of `Publish` nothing is left to do and of `Leave` and `Abort` only
    /// the closing of the channels. Of a session that is not there an event
    /// changes nothing.
    pub fn peer_event(&mut self, handle: u64, event: &PeerEvent) -> (action: PeerAction)
        requires
            old(self).wf(),
            event@.wf(),
        ensures
            final(self).wf(),
            (final(self)@, action@) == old(self)@.peer_event(handle, event@),
    {
        proof {
            old(self)@.lemma_peer_event_consistent(handle, event@);
        }
        let ghost before = self@;
        match self.sessions.remove(handle) {
            None => {
                proof {
                    assert(!before.sessions.contains_key(handle));
                    assert(self@.sessions =~= before.sessions);
                }
                PeerAction::Idle
            },
            Some(mut peer) => {
                proof {
                    assert(before.sessions.contains_key(handle));
                    assert(before.sessions[handle] == peer@);
                }
                let action = peer.step(event);
                let ghost stepped = peer@;
                let ghost kept = ControllerView {
                    sessions: before.sessions.insert(handle, stepped),
                    ..before
                };
                match action {
                    PeerAction::Publish(message) => {
                        let copy = message.clone();
                        self.sessions.insert(handle, peer);
                        self.bus.take_in(message);
                        proof {
                            assert(self@.sessions =~= kept.sessions);
                            assert(self@ == kept.take_in(copy@));
                        }
                        PeerAction::Publish(copy)
                    },
                    PeerAction::Leave(notice) => {
                        let copy = notice.clone();
                        self.forget(handle);
                        proof {
                            assert(self@.sessions =~= before.dropped(handle).sessions);
                            assert(self@.registry =~= before.dropped(handle).registry);
                            assert(self@ == before.dropped(handle));
                            before.lemma_dropped_consistent(handle);
                        }
                        self.bus.take_in(notice);
                        PeerAction::Leave(copy)
                    },
                    PeerAction::Abort => {
                        self.forget(handle);
                        proof {
                            assert(self@.sessions =~= before.dropped(handle).sessions);
                            assert(self@.registry =~= before.dropped(handle).registry);
                        }
                        PeerAction::Abort
                    },
                    PeerAction::ConnectUdp(address) => {
                        let remote = match peer.info() {
                            Some(record) => Some(record.clone()),
                            None => None,
                        };
                        match remote {
                            Some(info) => match self.bus.subscribe() {
                                Some(subscription) => {
                                    self.sessions.insert(handle, peer);
                                    let entry = RosterEntry { info, subscription };
                                    self.registry.insert(handle, entry);
                                    proof {
                                        let target = kept.registered(handle, stepped.remote->0);
                                        assert(!before.registry.contains_key(handle));
                                        assert(self@.sessions =~= target.sessions);
                                        assert(self@.registry =~= target.registry);
                                    }
                                    PeerAction::ConnectUdp(address)
                                },
                                None => {
                                    self.forget(handle);
                                    proof {
                                        assert(self@.sessions =~= before.dropped(handle).sessions);
                                        assert(self@.registry =~= before.dropped(handle).registry);
                                    }
                                    PeerAction::Abort
                                },
                            },
                            None => {
                                self.forget(handle);
                                PeerAction::Abort
                            },
                        }
                    },
                    other => {
                        self.sessions.insert(handle, peer);
                        proof {
                            assert(self@.sessions =~= kept.sessions);
                        }
                        other
                    },
                }
            },
        }
    }
}

impl NetworkController {
    /// Lets session `handle` serve the bus: while it relays and an event
    /// waits in its mailbox, the oldest such event is given to the session,
    /// and what is to be done for it comes back.
    pub fn deliver(&mut self, handle: u64) -> (action: PeerAction)
        requires
            old(self).wf(),
        ensures
            final(self).wf(),
            (final(self)@, action@) == old(self)@.deliver(handle),
    {
        let subscription: u64 = match self.registry.get(handle) {
            Some(entry) => entry.subscription,
            None => {
                return PeerAction::Idle;
            },
        };
        let relaying = match self.sessions.get(handle) {
            Some(peer) => peer.phase() == Phase::Relaying,
            None => false,
        };
        if !relaying {
            return PeerAction::Idle;
        }
        match self.bus.receive(subscription) {
            None => PeerAction::Idle,
            Some(message) => {
                proof {
                    old(self)@.lemma_taken_consistent(subscription);
                }
                let event = PeerEvent::Broadcast(message);
                self.peer_event(handle, &event)
            },
        }
    }

    /// What the connected peers told of themselves, in the order in which
    /// they came in.
    pub fn roster(&self) -> (list: Vec<PeerInfo>)
        requires
            self.wf(),
        ensures
            list@.len() == self@.roster.len(),
            forall|i: int|
                0 <= i < list@.len() ==> (#[trigger] list@[i])@
                    == self@.registry[self@.roster[i]].info,
    {
        let n: usize = self.registry.len();
        let mut list: Vec<PeerInfo> = Vec::new();
        let mut i: usize = 0;
        while i < n
            invariant
                i <= n,
                n == self.registry.order().len(),
                self.wf(),
                list@.len() == i,
                forall|j: int|
                    0 <= j < i ==> (#[trigger] list@[j])@
                        == self@.registry[self@.roster[j]].info,
            decreases n - i,
        {
            proof {
                self.registry.lemma_order();
            }
            let entry = self.registry.value_at(i);
            list.push(entry.info.clone());
            i = i + 1;
        }
        list
    }

    /// How many peers are connected.
    pub fn peer_count(&self) -> (n: usize)
        requires
            self.wf(),
        ensures
            n == self@.roster.len(),
            n == self@.live_sessions().len(),
    {
        proof {
            self@.lemma_no_orphans();
        }
        self.registry.len()
    }
}

impl NetworkController {
    /// How far session `handle` has come; `None` where there is no such
    /// session, be it that it never began or that it has ended.
    pub fn phase_of(&self, handle: u64) -> (phase: Option<Phase>)
        requires
            self.wf(),
        ensures
            phase == if self@.sessions.contains_key(handle) {
                Some(self@.sessions[handle].phase)
            } else {
                None
            },
    {
        match self.sessions.get(handle) {
            Some(peer) => Some(peer.phase()),
            None => None,
        }
    }

    /// How many events of the bus wait for session `handle`; 0 where the
    /// session is not registered.
    pub fn waiting(&self, handle: u64) -> (n: usize)
        requires
            self.wf(),
        ensures
            n == if self@.registry.contains_key(handle) {
                self@.bus.subscribers[self@.registry[handle].subscription].mailbox.len()
            } else {
                0
            },
    {
        match self.registry.get(handle) {
            Some(entry) => self.bus.waiting(entry.subscription),
            None => 0,
        }
    }
}

} // verus!
