//! One session per remote peer: the handshake, the liveness probing on the
//! data channel, and the relay between the two channels and the bus.
//!
//! The session owns no socket. Whoever drives it reports what happened as a
//! [`PeerEvent`] and carries out the [`PeerAction`] that the session answers
//! with. A session serves one event at a time.

use crate::address::Address;
use crate::envelope::{
    control_fits, control_of_read, control_wire, data_of_read, data_wire, handshake_of_read,
    lemma_control_round_trip, lemma_data_round_trip, PeerMessageTcp, PeerMessageTcpView,
    PeerMessageUdp, PeerMessageUdpView, ReadError,
};
use crate::message::{Message, MessageView};
use crate::wire::{
    handshake_wire, lemma_handshake_round_trip, text_fits, PeerId, PeerInfo, PeerInfoView,
};
use vstd::prelude::*;
use vstd::slice::*;

verus! {

/// The time between two probes on the data channel, in milliseconds.
pub const PROBE_INTERVAL_MILLIS: u64 = 500;

/// How far a session has come. The phases are passed in this order, and a
/// session that has failed goes straight to `Disconnected`.
#[derive(Debug, Clone, Copy, PartialEq, Eq, Structural)]
pub enum Phase {
    /// The control channel is open and nothing has been said yet.
    Connecting,
    /// The local handshake record has been handed out for sending.
    HandshakeSent,
    /// The remote handshake record has arrived.
    HandshakeReceived,
    /// Probes go out on the data channel until an answer comes in.
    UdpProbing,
    /// Both channels and the bus are served.
    Relaying,
    /// The session is over.
    Disconnected,
}

/// The sources that a session can be waiting on.
#[derive(Debug, Clone, Copy, PartialEq, Eq, Structural)]
pub struct Sources {
    /// The control channel.
    pub tcp: bool,
    /// The data channel.
    pub udp: bool,
    /// The bus subscription.
    pub bus: bool,
    /// The retry interval of the probing.
    pub timer: bool,
}

impl Phase {
    /// The sources that a session in this phase waits on, all at once, to
    /// serve whichever has something first: the control channel for the
    /// remote record, the data channel and the timer while probing, both
    /// channels and the bus while relaying.
    pub open spec fn awaited(self) -> Sources {
        match self {
            Phase::HandshakeSent => Sources { tcp: true, udp: false, bus: false, timer: false },
            Phase::UdpProbing => Sources { tcp: false, udp: true, bus: false, timer: true },
            Phase::Relaying => Sources { tcp: true, udp: true, bus: true, timer: false },
            _ => Sources { tcp: false, udp: false, bus: false, timer: false },
        }
    }

    /// The sources that a session in this phase waits on.
    pub fn awaits(self) -> (sources: Sources)
        ensures
            sources == self.awaited(),
    {
        match self {
            Phase::HandshakeSent => Sources { tcp: true, udp: false, bus: false, timer: false },
            Phase::UdpProbing => Sources { tcp: false, udp: true, bus: false, timer: true },
            Phase::Relaying => Sources { tcp: true, udp: true, bus: true, timer: false },
            _ => Sources { tcp: false, udp: false, bus: false, timer: false },
        }
    }
}

/// Something the driver was asked to do and that may fail.
#[derive(Debug, Clone, Copy, PartialEq, Eq, Structural)]
pub enum Attempt {
    /// Writing the handshake record to the control channel.
    Handshake,
    /// Connecting the data channel to the remote port.
    ConnectUdp,
    /// Writing a probe to the data channel.
    Ping,
    /// Writing the answer to a probe to the data channel.
    Pong,
    /// Writing a chat envelope to the control channel.
    Chat,
    /// Putting an event on the inbound queue.
    Publish,
}

/// What the driver reports to a session.
#[derive(Debug)]
pub enum PeerEvent {
    /// The control channel has been established.
    Start,
    /// The data channel has been connected to the remote port.
    UdpConnected,
    /// The retry interval of the probing has elapsed.
    ProbeTimer,
    /// A read from the control channel has ended: the number of bytes that it
    /// returned, or `None` when it failed, and the buffer that it filled.
    TcpRead(Option<usize>, Vec<u8>),
    /// A read from the data channel has ended, reported in the same way.
    UdpRead(Option<usize>, Vec<u8>),
    /// The bus subscription has yielded an event.
    Broadcast(Message),
    /// Something that the session had asked for has failed.
    Failed(Attempt),
}

/// The mathematical content of a [`PeerEvent`].
pub enum EventView {
    Start,
    UdpConnected,
    ProbeTimer,
    TcpRead(Option<usize>, Seq<u8>),
    UdpRead(Option<usize>, Seq<u8>),
    Broadcast(MessageView),
    Failed(Attempt),
}

impl View for PeerEvent {
    type V = EventView;

    open spec fn view(&self) -> EventView {
        match self {
            PeerEvent::Start => EventView::Start,
            PeerEvent::UdpConnected => EventView::UdpConnected,
            PeerEvent::ProbeTimer => EventView::ProbeTimer,
            PeerEvent::TcpRead(read, buffer) => EventView::TcpRead(*read, buffer@),
            PeerEvent::UdpRead(read, buffer) => EventView::UdpRead(*read, buffer@),
            PeerEvent::Broadcast(message) => EventView::Broadcast(message@),
            PeerEvent::Failed(attempt) => EventView::Failed(*attempt),
        }
    }
}

impl EventView {
    /// Whether the event comes from one of `sources`. What the driver itself
    /// has brought about comes from none.
    pub open spec fn from_one_of(self, sources: Sources) -> bool {
        match self {
            EventView::TcpRead(_, _) => sources.tcp,
            EventView::UdpRead(_, _) => sources.udp,
            EventView::Broadcast(_) => sources.bus,
            EventView::ProbeTimer => sources.timer,
            _ => false,
        }
    }

    /// Whether the event comes from a source at all.
    pub open spec fn from_a_source(self) -> bool {
        self.from_one_of(Sources { tcp: true, udp: true, bus: true, timer: true })
    }

    /// A read never reports more bytes than its buffer holds.
    pub open spec fn wf(self) -> bool {
        match self {
            EventView::TcpRead(Some(count), buffer) => count <= buffer.len(),
            EventView::UdpRead(Some(count), buffer) => count <= buffer.len(),
            _ => true,
        }
    }
}

/// What a session asks its driver to do.
#[derive(Debug)]
pub enum PeerAction {
    /// Nothing.
    Idle,
    /// Write these bytes, the local handshake record, to the control channel.
    /// A failure is of no consequence.
    SendHandshake(Vec<u8>),
    /// Connect the data channel to this address: the host that the control
    /// channel leads to, at the port that the remote record names.
    ConnectUdp(Address),
    /// Write these bytes, a probe, to the data channel.
    SendPing(Vec<u8>),
    /// Write these bytes, the answer to a probe, to the data channel.
    /// A failure is of no consequence.
    SendPong(Vec<u8>),
    /// Write these bytes, a chat envelope, to the control channel.
    SendChat(Vec<u8>),
    /// Put this event on the inbound queue.
    Publish(Message),
    /// Hand this voice payload and its sender to the audio side.
    DeliverVoice(PeerId, Vec<u8>),
    /// Tear the session down, drop it from the registry and put this event,
    /// the notice of its departure, on the inbound queue.
    Leave(Message),
    /// Tear the session down; it never was registered.
    Abort,
}

/// The mathematical content of a [`PeerAction`].
pub enum ActionView {
    Idle,
    SendHandshake(Seq<u8>),
    ConnectUdp(Address),
    SendPing(Seq<u8>),
    SendPong(Seq<u8>),
    SendChat(Seq<u8>),
    Publish(MessageView),
    DeliverVoice(PeerId, Seq<u8>),
    Leave(MessageView),
    Abort,
}

impl View for PeerAction {
    type V = ActionView;

    open spec fn view(&self) -> ActionView {
        match self {
            PeerAction::Idle => ActionView::Idle,
            PeerAction::SendHandshake(bytes) => ActionView::SendHandshake(bytes@),
            PeerAction::ConnectUdp(address) => ActionView::ConnectUdp(*address),
            PeerAction::SendPing(bytes) => ActionView::SendPing(bytes@),
            PeerAction::SendPong(bytes) => ActionView::SendPong(bytes@),
            PeerAction::SendChat(bytes) => ActionView::SendChat(bytes@),
            PeerAction::Publish(message) => ActionView::Publish(message@),
            PeerAction::DeliverVoice(sender, payload) => ActionView::DeliverVoice(
                *sender,
                payload@,
            ),
            PeerAction::Leave(message) => ActionView::Leave(message@),
            PeerAction::Abort => ActionView::Abort,
        }
    }
}

/// The mathematical content of a [`Peer`].
pub struct PeerView {
    pub phase: Phase,
    /// What this side tells the other.
    pub local: PeerInfoView,
    /// Where the control channel leads.
    pub address: Address,
    /// What the other side has told, once it has.
    pub remote: Option<PeerInfoView>,
    /// Whether an answer to a probe has come in on the data channel.
    pub udp_pong_ok: bool,
}

/// The probe as it goes on the data channel.
pub open spec fn ping_wire() -> Seq<u8> {
    data_wire(PeerMessageUdpView::Ping)
}

/// The answer to a probe as it goes on the data channel.
pub open spec fn pong_wire() -> Seq<u8> {
    data_wire(PeerMessageUdpView::Pong)
}

impl PeerView {
    /// What holds of every session: the remote record is unknown until it
    /// has arrived and known from then on while the session lives, and a
    /// session relays if and only if its data channel has been confirmed,
    /// until it ends.
    pub open spec fn wf(self) -> bool {
        &&& self.phase == Phase::Connecting || self.phase == Phase::HandshakeSent
            ==> self.remote is None
        &&& self.is_live() ==> self.remote is Some
        &&& self.phase == Phase::Relaying ==> self.udp_pong_ok
        &&& self.udp_pong_ok ==> self.phase == Phase::Relaying || self.phase
            == Phase::Disconnected
    }

    /// The session has completed its handshake and has not ended.
    pub open spec fn is_live(self) -> bool {
        self.phase == Phase::HandshakeReceived || self.phase == Phase::UdpProbing || self.phase
            == Phase::Relaying
    }

    /// The identifier of the remote peer.
    pub open spec fn id(self) -> PeerId
        recommends
            self.remote is Some,
    {
        self.remote->0.id
    }

    /// The session, ended.
    pub open spec fn ended(self) -> PeerView {
        PeerView { phase: Phase::Disconnected, ..self }
    }

    /// The end of a registered session: it is torn down and its departure is
    /// announced.
    pub open spec fn leave(self) -> (PeerView, ActionView) {
        (self.ended(), ActionView::Leave(MessageView::Disconnect(self.id())))
    }

    /// A datagram has been read, in whatever phase: a probe is answered, an
    /// answer confirms the data channel, voice is handed on, and anything
    /// else, a failed read included, is passed over.
    pub open spec fn on_udp_read(self, read: Option<usize>, bytes: Seq<u8>) -> (
        PeerView,
        ActionView,
    ) {
        match data_of_read(read, bytes) {
            Ok(PeerMessageUdpView::Ping) => (self, ActionView::SendPong(pong_wire())),
            Ok(PeerMessageUdpView::Pong) => (
                PeerView { udp_pong_ok: true, ..self },
                ActionView::Idle,
            ),
            Ok(PeerMessageUdpView::VoiceData(sender, payload)) => (
                self,
                ActionView::DeliverVoice(sender, payload),
            ),
            Err(_) => (self, ActionView::Idle),
        }
    }

    /// The control channel has been read while relaying: a chat line goes to
    /// the inbound queue under the remote peer's identifier, a failed or
    /// empty read ends the session, and anything else is passed over.
    pub open spec fn on_tcp_read(self, read: Option<usize>, bytes: Seq<u8>) -> (
        PeerView,
        ActionView,
    ) {
        match control_of_read(read, bytes) {
            Ok(PeerMessageTcpView::ChatEvent(_, text)) => (
                self,
                ActionView::Publish(MessageView::TextChat(self.id(), text)),
            ),
            Ok(_) => (self, ActionView::Idle),
            Err(ReadError::Malformed) => (self, ActionView::Idle),
            Err(_) => self.leave(),
        }
    }

    /// The bus has yielded an event while relaying: a chat line goes out on
    /// the control channel unless the remote peer is its sender; every other
    /// event is passed over.
    pub open spec fn on_broadcast(self, message: MessageView) -> (PeerView, ActionView) {
        match message {
            MessageView::TextChat(sender, text) => if sender == self.id() {
                (self, ActionView::Idle)
            } else {
                (
                    self,
                    ActionView::SendChat(
                        control_wire(PeerMessageTcpView::ChatEvent(sender, text)),
                    ),
                )
            },
            _ => (self, ActionView::Idle),
        }
    }

    /// One turn of the handshake.
    pub open spec fn handshake(self, event: EventView) -> (PeerView, ActionView) {
        match (self.phase, event) {
            (Phase::Connecting, EventView::Start) => (
                PeerView { phase: Phase::HandshakeSent, ..self },
                ActionView::SendHandshake(handshake_wire(self.local)),
            ),
            (Phase::HandshakeSent, EventView::TcpRead(read, bytes)) => match handshake_of_read(
                read,
                bytes,
            ) {
                Ok(info) => (
                    PeerView { phase: Phase::HandshakeReceived, remote: Some(info), ..self },
                    ActionView::ConnectUdp(
                        Address { host: self.address.host, port: info.udp_port },
                    ),
                ),
                Err(_) => (self.ended(), ActionView::Abort),
            },
            (Phase::HandshakeReceived, EventView::UdpConnected) => (
                PeerView { phase: Phase::UdpProbing, ..self },
                ActionView::SendPing(ping_wire()),
            ),
            (Phase::HandshakeReceived, EventView::Failed(Attempt::ConnectUdp)) => (
                self.ended(),
                ActionView::Abort,
            ),
            _ => (self, ActionView::Idle),
        }
    }

    /// One turn of the probing: a probe goes out whenever the interval has
    /// elapsed, and the first answer that comes in starts the relaying.
    pub open spec fn probe(self, event: EventView) -> (PeerView, ActionView) {
        match event {
            EventView::ProbeTimer => (self, ActionView::SendPing(ping_wire())),
            EventView::UdpRead(read, bytes) => {
                let (after, action) = self.on_udp_read(read, bytes);
                if after.udp_pong_ok {
                    (PeerView { phase: Phase::Relaying, ..after }, action)
                } else {
                    (after, action)
                }
            },
            EventView::Failed(Attempt::Ping) => self.leave(),
            _ => (self, ActionView::Idle),
        }
    }

    /// One turn of the relaying.
    pub open spec fn relay(self, event: EventView) -> (PeerView, ActionView) {
        match event {
            EventView::UdpRead(read, bytes) => self.on_udp_read(read, bytes),
            EventView::TcpRead(read, bytes) => self.on_tcp_read(read, bytes),
            EventView::Broadcast(message) => self.on_broadcast(message),
            EventView::Failed(Attempt::Chat) => self.leave(),
            EventView::Failed(Attempt::Publish) => self.leave(),
            _ => (self, ActionView::Idle),
        }
    }

    /// What a session does with an event: where it goes and what it asks for.
    /// An event that the phase does not wait for changes nothing.
    pub open spec fn step(self, event: EventView) -> (PeerView, ActionView) {
        match self.phase {
            Phase::Connecting => self.handshake(event),
            Phase::HandshakeSent => self.handshake(event),
            Phase::HandshakeReceived => self.handshake(event),
            Phase::UdpProbing => self.probe(event),
            Phase::Relaying => self.relay(event),
            Phase::Disconnected => (self, ActionView::Idle),
        }
    }
}

/// A session with one remote peer.
#[derive(Debug)]
pub struct Peer {
    phase: Phase,
    local: PeerInfo,
    address: Address,
    remote: Option<PeerInfo>,
    udp_pong_ok: bool,
}

impl View for Peer {
    type V = PeerView;

    closed spec fn view(&self) -> PeerView {
        PeerView {
            phase: self.phase,
            local: self.local@,
            address: self.address,
            remote: match self.remote {
                Some(info) => Some(info@),
                None => None,
            },
            udp_pong_ok: self.udp_pong_ok,
        }
    }
}

impl Peer {
    /// A session at its very beginning, over a control channel that leads to
    /// `address`; it will introduce this side by `local`.
    pub fn new(local: PeerInfo, address: Address) -> (peer: Peer)
        ensures
            peer@ == (PeerView {
                phase: Phase::Connecting,
                local: local@,
                address,
                remote: None,
                udp_pong_ok: false,
            }),
            peer@.wf(),
    {
        Peer { phase: Phase::Connecting, local, address, remote: None, udp_pong_ok: false }
    }

    /// How far the session has come.
    pub fn phase(&self) -> (phase: Phase)
        ensures
            phase == self@.phase,
    {
        self.phase
    }

    /// The identifier of the remote peer, once its record has arrived.
    pub fn id(&self) -> (id: Option<PeerId>)
        ensures
            match id {
                Some(value) => self@.remote is Some && value == self@.id(),
                None => self@.remote is None,
            },
    {
        match &self.remote {
            Some(info) => Some(info.id),
            None => None,
        }
    }

    /// What the remote peer has told of itself, once it has.
    pub fn info(&self) -> (info: Option<&PeerInfo>)
        ensures
            match info {
                Some(record) => self@.remote == Some(record@),
                None => self@.remote is None,
            },
    {
        match &self.remote {
            Some(record) => Some(record),
            None => None,
        }
    }

    /// Whether an answer to a probe has come in on the data channel.
    pub fn is_udp_pong_ok(&self) -> (ok: bool)
        ensures
            ok == self@.udp_pong_ok,
    {
        self.udp_pong_ok
    }

    /// Whether the session has completed its handshake and has not ended.
    pub fn is_live(&self) -> (live: bool)
        ensures
            live == self@.is_live(),
    {
        match self.phase {
            Phase::HandshakeReceived => true,
            Phase::UdpProbing => true,
            Phase::Relaying => true,
            _ => false,
        }
    }

    /// Notes that the data channel has been confirmed.
    fn set_udp_pong_ok(&mut self)
        ensures
            final(self)@ == (PeerView { udp_pong_ok: true, ..old(self)@ }),
    {
        self.udp_pong_ok = true;
    }

    /// Ends a registered session and announces its departure.
    fn leave(&mut self) -> (action: PeerAction)
        requires
            old(self)@.remote is Some,
        ensures
            (final(self)@, action@) == old(self)@.leave(),
    {
        self.phase = Phase::Disconnected;
        match &self.remote {
            Some(info) => PeerAction::Leave(Message::Disconnect(info.id)),
            None => PeerAction::Abort,
        }
    }

    /// Serves a read from the data channel: `read` is the number of bytes
    /// that it returned, or `None` when it failed, and `bytes` the buffer that
    /// it filled.
    fn handle_udp_read(&mut self, read: Option<usize>, bytes: &[u8]) -> (action: PeerAction)
        requires
            read matches Some(count) ==> count <= bytes@.len(),
        ensures
            (final(self)@, action@) == old(self)@.on_udp_read(read, bytes@),
    {
        match PeerMessageUdp::new_from_read(read, bytes) {
            Ok(PeerMessageUdp::Ping) => PeerAction::SendPong(PeerMessageUdp::Pong.to_bytes()),
            Ok(PeerMessageUdp::Pong) => {
                self.set_udp_pong_ok();
                PeerAction::Idle
            },
            Ok(PeerMessageUdp::VoiceData(sender, payload)) => PeerAction::DeliverVoice(
                sender,
                payload,
            ),
            Err(_) => PeerAction::Idle,
        }
    }

    /// Serves a read from the control channel while relaying, reported as for
    /// the data channel.
    fn handle_tcp_read(&mut self, read: Option<usize>, bytes: &[u8]) -> (action: PeerAction)
        requires
            old(self)@.remote is Some,
            read matches Some(count) ==> count <= bytes@.len(),
        ensures
            (final(self)@, action@) == old(self)@.on_tcp_read(read, bytes@),
    {
        match PeerMessageTcp::new_from_read(read, bytes) {
            Ok(PeerMessageTcp::ChatEvent(_, text)) => match &self.remote {
                Some(info) => PeerAction::Publish(Message::TextChat(info.id, text)),
                None => PeerAction::Idle,
            },
            Ok(_) => PeerAction::Idle,
            Err(ReadError::Malformed) => PeerAction::Idle,
            Err(_) => self.leave(),
        }
    }

    /// Serves an event that the bus has yielded while relaying.
    fn handle_broadcast(&self, message: &Message) -> (action: PeerAction)
        requires
            self@.remote is Some,
        ensures
            (self@, action@) == self@.on_broadcast(message@),
    {
        match message {
            Message::TextChat(sender, text) => match &self.remote {
                Some(info) => {
                    if *sender == info.id {
                        PeerAction::Idle
                    } else {
                        let envelope = PeerMessageTcp::ChatEvent(*sender, text.clone());
                        PeerAction::SendChat(envelope.to_bytes())
                    }
                },
                None => PeerAction::Idle,
            },
            _ => PeerAction::Idle,
        }
    }

    /// One turn of the handshake.
    fn handshake(&mut self, event: &PeerEvent) -> (action: PeerAction)
        requires
            old(self)@.wf(),
            event@.wf(),
        ensures
            final(self)@.wf(),
            (final(self)@, action@) == old(self)@.handshake(event@),
    {
        match self.phase {
            Phase::Connecting => match event {
                PeerEvent::Start => {
                    self.phase = Phase::HandshakeSent;
                    PeerAction::SendHandshake(self.local.to_bytes())
                },
                _ => PeerAction::Idle,
            },
            Phase::HandshakeSent => match event {
                PeerEvent::TcpRead(read, buffer) => {
                    match PeerInfo::new_from_read(*read, buffer.as_slice()) {
                        Ok(info) => {
                            let target = self.address.with_port(info.udp_port);
                            self.remote = Some(info);
                            self.phase = Phase::HandshakeReceived;
                            PeerAction::ConnectUdp(target)
                        },
                        Err(_) => {
                            self.phase = Phase::Disconnected;
                            PeerAction::Abort
                        },
                    }
                },
                _ => PeerAction::Idle,
            },
            Phase::HandshakeReceived => match event {
                PeerEvent::UdpConnected => {
                    self.phase = Phase::UdpProbing;
                    PeerAction::SendPing(PeerMessageUdp::Ping.to_bytes())
                },
                PeerEvent::Failed(Attempt::ConnectUdp) => {
                    self.phase = Phase::Disconnected;
                    PeerAction::Abort
                },
                _ => PeerAction::Idle,
            },
            _ => PeerAction::Idle,
        }
    }

    /// One turn of the probing.
    fn probe(&mut self, event: &PeerEvent) -> (action: PeerAction)
        requires
            old(self)@.wf(),
            old(self)@.phase == Phase::UdpProbing,
            event@.wf(),
        ensures
            final(self)@.wf(),
            (final(self)@, action@) == old(self)@.probe(event@),
    {
        match event {
            PeerEvent::ProbeTimer => PeerAction::SendPing(PeerMessageUdp::Ping.to_bytes()),
            PeerEvent::UdpRead(read, buffer) => {
                let action = self.handle_udp_read(*read, buffer.as_slice());
                if self.is_udp_pong_ok() {
                    self.phase = Phase::Relaying;
                }
                action
            },
            PeerEvent::Failed(Attempt::Ping) => self.leave(),
            _ => PeerAction::Idle,
        }
    }

    /// One turn of the relaying.
    fn relay(&mut self, event: &PeerEvent) -> (action: PeerAction)
        requires
            old(self)@.wf(),
            old(self)@.phase == Phase::Relaying,
            event@.wf(),
        ensures
            final(self)@.wf(),
            (final(self)@, action@) == old(self)@.relay(event@),
    {
        match event {
            PeerEvent::UdpRead(read, buffer) => self.handle_udp_read(*read, buffer.as_slice()),
            PeerEvent::TcpRead(read, buffer) => self.handle_tcp_read(*read, buffer.as_slice()),
            PeerEvent::Broadcast(message) => self.handle_broadcast(message),
            PeerEvent::Failed(Attempt::Chat) => self.leave(),
            PeerEvent::Failed(Attempt::Publish) => self.leave(),
            _ => PeerAction::Idle,
        }
    }

    /// Serves one event: the session moves on as [`PeerView::step`] says and
    /// answers with what is to be done.
    pub fn step(&mut self, event: &PeerEvent) -> (action: PeerAction)
        requires
            old(self)@.wf(),
            event@.wf(),
        ensures
            final(self)@.wf(),
            (final(self)@, action@) == old(self)@.step(event@),
    {
        match self.phase {
            Phase::Connecting => self.handshake(event),
            Phase::HandshakeSent => self.handshake(event),
            Phase::HandshakeReceived => self.handshake(event),
            Phase::UdpProbing => self.probe(event),
            Phase::Relaying => self.relay(event),
            Phase::Disconnected => PeerAction::Idle,
        }
    }
}

impl Phase {
    /// The place of a phase in the order in which sessions pass them.
    pub open spec fn rank(self) -> nat {
        match self {
            Phase::Connecting => 0,
            Phase::HandshakeSent => 1,
            Phase::HandshakeReceived => 2,
            Phase::UdpProbing => 3,
            Phase::Relaying => 4,
            Phase::Disconnected => 5,
        }
    }
}

impl PeerView {
    /// Every step keeps a session well-formed, so no session is ever found
    /// relaying with its data channel unconfirmed.
    pub proof fn lemma_step_keeps_wf(self, event: EventView)
        requires
            self.wf(),
        ensures
            self.step(event).0.wf(),
            self.step(event).0.phase == Phase::Relaying ==> self.step(event).0.udp_pong_ok,
    {
    }

    /// The only way into the relaying leads from the probing, over an answer
    /// to a probe that was read from the data channel.
    pub proof fn lemma_relaying_entered_by_pong(self, event: EventView)
        requires
            self.wf(),
            self.phase != Phase::Relaying,
            self.step(event).0.phase == Phase::Relaying,
        ensures
            self.phase == Phase::UdpProbing,
            event matches EventView::UdpRead(read, bytes) && data_of_read(read, bytes) == Ok::<
                PeerMessageUdpView,
                ReadError,
            >(PeerMessageUdpView::Pong),
    {
    }

    /// The data channel is confirmed once: by the step that starts the
    /// relaying, and by no other.
    pub proof fn lemma_confirmed_once(self, event: EventView)
        requires
            self.wf(),
        ensures
            self.step(event).0.udp_pong_ok != self.udp_pong_ok ==> {
                &&& !self.udp_pong_ok
                &&& self.phase == Phase::UdpProbing
                &&& self.step(event).0.phase == Phase::Relaying
            },
    {
    }

    /// A confirmed data channel stays confirmed, and what the two sides told
    /// each other in the handshake is never rewritten.
    pub proof fn lemma_step_keeps_facts(self, event: EventView)
        requires
            self.wf(),
        ensures
            self.udp_pong_ok ==> self.step(event).0.udp_pong_ok,
            self.step(event).0.local == self.local,
            self.step(event).0.address == self.address,
            self.remote is Some ==> self.step(event).0.remote == self.remote,
    {
    }

    /// Sessions pass their phases in order and never come back from the end.
    pub proof fn lemma_phase_advances(self, event: EventView)
        requires
            self.wf(),
        ensures
            self.phase.rank() <= self.step(event).0.phase.rank(),
            self.phase == Phase::Disconnected ==> self.step(event) == (self, ActionView::Idle),
    {
    }

    /// What comes from a source that the phase does not wait on changes
    /// nothing and asks for nothing.
    pub proof fn lemma_unawaited_is_passed_over(self, event: EventView)
        requires
            self.wf(),
            event.from_a_source(),
            !event.from_one_of(self.phase.awaited()),
        ensures
            self.step(event) == (self, ActionView::Idle),
    {
    }

    /// Loop prevention: a chat envelope goes out to the remote peer only for a
    /// chat line from the bus whose sender is someone else, and it carries
    /// that line unchanged.
    pub proof fn lemma_no_echo(self, event: EventView)
        requires
            self.wf(),
        ensures
            self.step(event).1 matches ActionView::SendChat(bytes) ==> {
                &&& self.phase == Phase::Relaying
                &&& event matches EventView::Broadcast(MessageView::TextChat(sender, text))
                &&& sender != self.id()
                &&& bytes == control_wire(PeerMessageTcpView::ChatEvent(sender, text))
            },
    {
    }

    /// Loop prevention, said of the event: a chat line whose sender is the
    /// remote peer itself is never sent to it, in whatever phase.
    pub proof fn lemma_own_line_not_sent(self, text: Seq<char>)
        requires
            self.wf(),
            self.remote is Some,
        ensures
            self.step(EventView::Broadcast(MessageView::TextChat(self.id(), text))) == (
                self,
                ActionView::Idle,
            ),
    {
    }

    /// Malformed bytes on the control channel are dropped and the session
    /// relays on.
    pub proof fn lemma_malformed_is_dropped(self, read: Option<usize>, bytes: Seq<u8>)
        requires
            self.wf(),
            self.phase == Phase::Relaying,
            control_of_read(read, bytes) == Err::<PeerMessageTcpView, ReadError>(
                ReadError::Malformed,
            ),
        ensures
            self.step(EventView::TcpRead(read, bytes)) == (self, ActionView::Idle),
    {
    }

    /// A session leaves only announcing the departure of its own remote peer.
    pub proof fn lemma_leave_names_the_peer(self, event: EventView)
        requires
            self.wf(),
        ensures
            self.step(event).1 matches ActionView::Leave(notice) ==> {
                &&& self.is_live()
                &&& self.step(event).0.phase == Phase::Disconnected
                &&& notice == MessageView::Disconnect(self.id())
            },
            self.step(event).0.phase == Phase::Disconnected && self.phase != Phase::Disconnected
                ==> (self.step(event).1 is Leave || self.step(event).1 is Abort),
            self.step(event).1 is Abort ==> !self.step(event).0.is_live() && (self.phase
                == Phase::HandshakeSent || self.phase == Phase::HandshakeReceived),
    {
    }
}

/// A read that returned `written` and nothing else, into a buffer that may be
/// longer: the first `count` bytes of the buffer are `written`.
pub open spec fn holds(count: usize, buffer: Seq<u8>, written: Seq<u8>) -> bool {
    &&& 0 < count <= buffer.len()
    &&& buffer.subrange(0, count as int) == written
}

impl PeerView {
    /// The handshake record that one side hands out is the record that the
    /// other side takes in: a session that waits for the remote record and
    /// reads what `remote` wrote knows `remote` from then on and asks for the
    /// data channel to be connected to the host that the control channel
    /// leads to, at the port that the record names.
    pub proof fn lemma_handshake_is_understood(
        self,
        remote: PeerInfoView,
        count: usize,
        buffer: Seq<u8>,
    )
        requires
            self.wf(),
            self.phase == Phase::HandshakeSent,
            text_fits(remote.nickname),
            holds(count, buffer, handshake_wire(remote)),
        ensures
            self.step(EventView::TcpRead(Some(count), buffer)) == (
                PeerView { phase: Phase::HandshakeReceived, remote: Some(remote), ..self },
                ActionView::ConnectUdp(Address { host: self.address.host, port: remote.udp_port }),
            ),
    {
        lemma_handshake_round_trip(remote, Seq::empty());
        assert(handshake_wire(remote) + Seq::<u8>::empty() =~= handshake_wire(remote));
    }

    /// A probe that reaches a session on its data channel is answered,
    /// whether the session still probes or relays already.
    pub proof fn lemma_probe_is_answered(self, count: usize, buffer: Seq<u8>)
        requires
            self.wf(),
            self.phase == Phase::UdpProbing || self.phase == Phase::Relaying,
            holds(count, buffer, ping_wire()),
        ensures
            self.step(EventView::UdpRead(Some(count), buffer)).1 == ActionView::SendPong(
                pong_wire(),
            ),
    {
        lemma_data_round_trip(PeerMessageUdpView::Ping, Seq::empty());
        assert(ping_wire() + Seq::<u8>::empty() =~= ping_wire());
    }

    /// An answer that reaches a probing session confirms the data channel and
    /// starts the relaying. So two sessions that probe each other and whose
    /// datagrams arrive both come to relay, each after one probe of the other.
    pub proof fn lemma_answer_starts_relaying(self, count: usize, buffer: Seq<u8>)
        requires
            self.wf(),
            self.phase == Phase::UdpProbing,
            holds(count, buffer, pong_wire()),
        ensures
            self.step(EventView::UdpRead(Some(count), buffer)) == (
                PeerView { phase: Phase::Relaying, udp_pong_ok: true, ..self },
                ActionView::Idle,
            ),
    {
        lemma_data_round_trip(PeerMessageUdpView::Pong, Seq::empty());
        assert(pong_wire() + Seq::<u8>::empty() =~= pong_wire());
    }

    /// A chat line travels: what one relaying session sends for a line from
    /// its bus, the relaying session at the other end of the control channel
    /// hands to its own bus, with the same text and under the identifier of
    /// the peer that it came from.
    pub proof fn lemma_line_travels(
        self,
        other: PeerView,
        sender: PeerId,
        text: Seq<char>,
        count: usize,
        buffer: Seq<u8>,
    )
        requires
            self.wf(),
            other.wf(),
            self.phase == Phase::Relaying,
            other.phase == Phase::Relaying,
            sender != self.id(),
            text_fits(text),
            self.step(EventView::Broadcast(MessageView::TextChat(sender, text))).1
                matches ActionView::SendChat(sent) && holds(count, buffer, sent),
        ensures
            other.step(EventView::TcpRead(Some(count), buffer)) == (
                other,
                ActionView::Publish(MessageView::TextChat(other.id(), text)),
            ),
    {
        let envelope = PeerMessageTcpView::ChatEvent(sender, text);
        assert(control_fits(envelope));
        lemma_control_round_trip(envelope, Seq::empty());
        assert(control_wire(envelope) + Seq::<u8>::empty() =~= control_wire(envelope));
    }
}

} // verus!
