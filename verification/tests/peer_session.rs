use coffee_chat::address::{Address, Host};
use coffee_chat::envelope::{PeerMessageTcp, PeerMessageUdp};
use coffee_chat::message::Message;
use coffee_chat::peer::{Attempt, Peer, PeerAction, PeerEvent, Phase, Sources};
use coffee_chat::wire::PeerInfo;

const REMOTE_ID: u128 = 0xb0b;
const LOCAL_ID: u128 = 0xa11ce;

fn local() -> PeerInfo {
    PeerInfo { id: LOCAL_ID, nickname: String::from("alice"), udp_port: 4000 }
}

fn there() -> Address {
    Address { host: Host::V4(0x0a00_0002), port: 7000 }
}

fn remote() -> PeerInfo {
    PeerInfo { id: REMOTE_ID, nickname: String::from("bob"), udp_port: 5000 }
}

/// A read of `bytes` into a buffer of the size that the channels are read with.
fn filled(bytes: &[u8]) -> (Option<usize>, Vec<u8>) {
    let mut buffer = bytes.to_vec();
    buffer.resize(1024.max(bytes.len()), 0x5a);
    (Some(bytes.len()), buffer)
}

fn tcp(bytes: &[u8]) -> PeerEvent {
    let (read, buffer) = filled(bytes);
    PeerEvent::TcpRead(read, buffer)
}

fn udp(bytes: &[u8]) -> PeerEvent {
    let (read, buffer) = filled(bytes);
    PeerEvent::UdpRead(read, buffer)
}

fn probing() -> Peer {
    let mut peer = Peer::new(local(), there());
    peer.step(&PeerEvent::Start);
    peer.step(&tcp(&remote().to_bytes()));
    peer.step(&PeerEvent::UdpConnected);
    assert_eq!(peer.phase(), Phase::UdpProbing);
    peer
}

fn relaying() -> Peer {
    let mut peer = probing();
    peer.step(&udp(&PeerMessageUdp::Pong.to_bytes()));
    assert_eq!(peer.phase(), Phase::Relaying);
    peer
}

fn is_idle(action: PeerAction) -> bool {
    matches!(action, PeerAction::Idle)
}

#[test]
fn a_session_begins_connecting() {
    let peer = Peer::new(local(), there());
    assert_eq!(peer.phase(), Phase::Connecting);
    assert!(!peer.is_udp_pong_ok());
    assert!(!peer.is_live());
    assert_eq!(peer.id(), None);
    assert!(peer.info().is_none());
}

#[test]
fn the_handshake_passes_its_phases_in_order() {
    let mut peer = Peer::new(local(), there());
    match peer.step(&PeerEvent::Start) {
        PeerAction::SendHandshake(bytes) => assert_eq!(bytes, local().to_bytes()),
        other => panic!("{:?}", other),
    }
    assert_eq!(peer.phase(), Phase::HandshakeSent);
    match peer.step(&tcp(&remote().to_bytes())) {
        PeerAction::ConnectUdp(target) => {
            assert_eq!(target, Address { host: Host::V4(0x0a00_0002), port: 5000 })
        }
        other => panic!("{:?}", other),
    }
    assert_eq!(peer.phase(), Phase::HandshakeReceived);
    assert_eq!(peer.id(), Some(REMOTE_ID));
    assert_eq!(peer.info().expect("the remote record").nickname, "bob");
    assert!(peer.is_live());
    match peer.step(&PeerEvent::UdpConnected) {
        PeerAction::SendPing(bytes) => assert_eq!(bytes, PeerMessageUdp::Ping.to_bytes()),
        other => panic!("{:?}", other),
    }
    assert_eq!(peer.phase(), Phase::UdpProbing);
    assert!(!peer.is_udp_pong_ok());
}

#[test]
fn a_failed_handshake_write_is_of_no_consequence() {
    let mut peer = Peer::new(local(), there());
    peer.step(&PeerEvent::Start);
    assert!(is_idle(peer.step(&PeerEvent::Failed(Attempt::Handshake))));
    assert_eq!(peer.phase(), Phase::HandshakeSent);
}

#[test]
fn a_handshake_that_cannot_be_read_aborts_the_session() {
    for event in [
        PeerEvent::TcpRead(None, vec![0; 1024]),
        PeerEvent::TcpRead(Some(0), vec![0; 1024]),
        tcp(&[1, 2, 3]),
        tcp(&remote().to_bytes()[..30]),
    ] {
        let mut peer = Peer::new(local(), there());
        peer.step(&PeerEvent::Start);
        match peer.step(&event) {
            PeerAction::Abort => {}
            other => panic!("{:?}", other),
        }
        assert_eq!(peer.phase(), Phase::Disconnected);
        assert!(!peer.is_live());
    }
}

#[test]
fn a_data_channel_that_cannot_be_connected_aborts_the_session() {
    let mut peer = Peer::new(local(), there());
    peer.step(&PeerEvent::Start);
    peer.step(&tcp(&remote().to_bytes()));
    match peer.step(&PeerEvent::Failed(Attempt::ConnectUdp)) {
        PeerAction::Abort => {}
        other => panic!("{:?}", other),
    }
    assert_eq!(peer.phase(), Phase::Disconnected);
}

#[test]
fn probing_sends_a_probe_at_every_interval_without_end() {
    let mut peer = probing();
    for _ in 0..1000 {
        match peer.step(&PeerEvent::ProbeTimer) {
            PeerAction::SendPing(bytes) => assert_eq!(bytes, vec![0, 0, 0, 0]),
            other => panic!("{:?}", other),
        }
        assert_eq!(peer.phase(), Phase::UdpProbing);
    }
}

#[test]
fn probing_answers_probes_and_goes_on() {
    let mut peer = probing();
    match peer.step(&udp(&PeerMessageUdp::Ping.to_bytes())) {
        PeerAction::SendPong(bytes) => assert_eq!(bytes, vec![1, 0, 0, 0]),
        other => panic!("{:?}", other),
    }
    assert_eq!(peer.phase(), Phase::UdpProbing);
    assert!(!peer.is_udp_pong_ok());
}

#[test]
fn relaying_is_entered_by_a_pong_and_by_nothing_else() {
    let mut peer = probing();
    for event in [
        PeerEvent::ProbeTimer,
        udp(&PeerMessageUdp::Ping.to_bytes()),
        udp(&[9, 9, 9, 9]),
        PeerEvent::UdpRead(None, vec![0; 1024]),
        PeerEvent::UdpRead(Some(0), vec![0; 1024]),
        udp(&PeerMessageUdp::VoiceData(REMOTE_ID, vec![1]).to_bytes()),
        tcp(&PeerMessageTcp::Pong.to_bytes()),
        PeerEvent::Broadcast(Message::Connect(1)),
        PeerEvent::Failed(Attempt::Pong),
        PeerEvent::Start,
        PeerEvent::UdpConnected,
    ] {
        peer.step(&event);
        assert_eq!(peer.phase(), Phase::UdpProbing, "after {:?}", event);
        assert!(!peer.is_udp_pong_ok());
    }
    assert!(is_idle(peer.step(&udp(&PeerMessageUdp::Pong.to_bytes()))));
    assert_eq!(peer.phase(), Phase::Relaying);
    assert!(peer.is_udp_pong_ok());
}

#[test]
fn a_probe_that_cannot_be_sent_ends_the_session() {
    let mut peer = probing();
    match peer.step(&PeerEvent::Failed(Attempt::Ping)) {
        PeerAction::Leave(Message::Disconnect(REMOTE_ID)) => {}
        other => panic!("{:?}", other),
    }
    assert_eq!(peer.phase(), Phase::Disconnected);
}

#[test]
fn a_chat_line_from_the_peer_goes_to_the_queue_under_the_peers_identifier() {
    let mut peer = relaying();
    let line = PeerMessageTcp::ChatEvent(0xdead, String::from("hello")).to_bytes();
    match peer.step(&tcp(&line)) {
        PeerAction::Publish(Message::TextChat(REMOTE_ID, text)) => assert_eq!(text, "hello"),
        other => panic!("{:?}", other),
    }
    assert_eq!(peer.phase(), Phase::Relaying);
}

#[test]
fn pings_on_the_control_channel_are_passed_over() {
    let mut peer = relaying();
    assert!(is_idle(peer.step(&tcp(&PeerMessageTcp::Ping.to_bytes()))));
    assert!(is_idle(peer.step(&tcp(&PeerMessageTcp::Pong.to_bytes()))));
    assert_eq!(peer.phase(), Phase::Relaying);
}

#[test]
fn malformed_bytes_are_dropped_and_the_next_message_is_still_delivered() {
    let mut peer = relaying();
    let line = PeerMessageTcp::ChatEvent(REMOTE_ID, String::from("still here")).to_bytes();
    assert!(is_idle(peer.step(&tcp(&[0xff, 0xff, 0xff, 0xff, 1, 2, 3]))));
    assert!(is_idle(peer.step(&tcp(&line[..line.len() - 3]))));
    assert!(is_idle(peer.step(&tcp(&[2]))));
    assert_eq!(peer.phase(), Phase::Relaying);
    match peer.step(&tcp(&line)) {
        PeerAction::Publish(Message::TextChat(REMOTE_ID, text)) => assert_eq!(text, "still here"),
        other => panic!("{:?}", other),
    }
}

#[test]
fn a_closed_or_failed_control_channel_ends_the_session() {
    for event in [PeerEvent::TcpRead(Some(0), vec![0; 1024]), PeerEvent::TcpRead(None, Vec::new())] {
        let mut peer = relaying();
        match peer.step(&event) {
            PeerAction::Leave(Message::Disconnect(REMOTE_ID)) => {}
            other => panic!("{:?}", other),
        }
        assert_eq!(peer.phase(), Phase::Disconnected);
        assert!(!peer.is_live());
    }
}

#[test]
fn a_failed_data_channel_read_does_not_end_the_session() {
    let mut peer = relaying();
    assert!(is_idle(peer.step(&PeerEvent::UdpRead(None, vec![0; 1024]))));
    assert!(is_idle(peer.step(&PeerEvent::UdpRead(Some(0), vec![0; 1024]))));
    assert!(is_idle(peer.step(&udp(&[7, 7]))));
    assert_eq!(peer.phase(), Phase::Relaying);
}

#[test]
fn relaying_answers_probes_and_hands_voice_on() {
    let mut peer = relaying();
    match peer.step(&udp(&PeerMessageUdp::Ping.to_bytes())) {
        PeerAction::SendPong(bytes) => assert_eq!(bytes, PeerMessageUdp::Pong.to_bytes()),
        other => panic!("{:?}", other),
    }
    assert!(is_idle(peer.step(&udp(&PeerMessageUdp::Pong.to_bytes()))));
    assert!(peer.is_udp_pong_ok());
    match peer.step(&udp(&PeerMessageUdp::VoiceData(77, vec![3, 1, 4]).to_bytes())) {
        PeerAction::DeliverVoice(77, payload) => assert_eq!(payload, vec![3, 1, 4]),
        other => panic!("{:?}", other),
    }
    assert_eq!(peer.phase(), Phase::Relaying);
}

#[test]
fn a_chat_line_of_somebody_else_goes_out_unchanged() {
    let mut peer = relaying();
    let event = PeerEvent::Broadcast(Message::TextChat(LOCAL_ID, String::from("hello")));
    match peer.step(&event) {
        PeerAction::SendChat(bytes) => {
            assert_eq!(bytes, PeerMessageTcp::ChatEvent(LOCAL_ID, String::from("hello")).to_bytes())
        }
        other => panic!("{:?}", other),
    }
}

#[test]
fn a_chat_line_of_the_peer_itself_is_never_sent_back() {
    let mut peer = relaying();
    for body in ["hello", "", "again"] {
        let event = PeerEvent::Broadcast(Message::TextChat(REMOTE_ID, String::from(body)));
        assert!(is_idle(peer.step(&event)));
    }
    assert_eq!(peer.phase(), Phase::Relaying);
}

#[test]
fn other_bus_events_are_passed_over() {
    let mut peer = relaying();
    for message in [
        Message::Connect(1),
        Message::Disconnect(2),
        Message::Disconnect(REMOTE_ID),
        Message::VoiceChat(3, vec![1]),
    ] {
        assert!(is_idle(peer.step(&PeerEvent::Broadcast(message))));
    }
    assert_eq!(peer.phase(), Phase::Relaying);
}

#[test]
fn a_chat_line_that_cannot_be_written_ends_the_session() {
    for attempt in [Attempt::Chat, Attempt::Publish] {
        let mut peer = relaying();
        match peer.step(&PeerEvent::Failed(attempt)) {
            PeerAction::Leave(Message::Disconnect(REMOTE_ID)) => {}
            other => panic!("{:?}", other),
        }
        assert_eq!(peer.phase(), Phase::Disconnected);
    }
}

#[test]
fn a_pong_that_cannot_be_written_is_of_no_consequence() {
    let mut peer = relaying();
    for attempt in [Attempt::Pong, Attempt::Ping, Attempt::Handshake, Attempt::ConnectUdp] {
        assert!(is_idle(peer.step(&PeerEvent::Failed(attempt))));
        assert_eq!(peer.phase(), Phase::Relaying);
    }
}

#[test]
fn an_ended_session_does_nothing() {
    let mut peer = relaying();
    peer.step(&PeerEvent::TcpRead(Some(0), Vec::new()));
    for event in [
        PeerEvent::Start,
        PeerEvent::UdpConnected,
        PeerEvent::ProbeTimer,
        tcp(&PeerMessageTcp::ChatEvent(1, String::from("late")).to_bytes()),
        udp(&PeerMessageUdp::Ping.to_bytes()),
        PeerEvent::Broadcast(Message::TextChat(1, String::from("late"))),
        PeerEvent::Failed(Attempt::Chat),
    ] {
        assert!(is_idle(peer.step(&event)));
        assert_eq!(peer.phase(), Phase::Disconnected);
    }
}

#[test]
fn every_phase_waits_on_its_sources() {
    let none = Sources { tcp: false, udp: false, bus: false, timer: false };
    assert_eq!(Phase::Connecting.awaits(), none);
    assert_eq!(
        Phase::HandshakeSent.awaits(),
        Sources { tcp: true, udp: false, bus: false, timer: false }
    );
    assert_eq!(Phase::HandshakeReceived.awaits(), none);
    assert_eq!(
        Phase::UdpProbing.awaits(),
        Sources { tcp: false, udp: true, bus: false, timer: true }
    );
    assert_eq!(
        Phase::Relaying.awaits(),
        Sources { tcp: true, udp: true, bus: true, timer: false }
    );
    assert_eq!(Phase::Disconnected.awaits(), none);
}
