use coffee_chat::envelope::{PeerMessageTcp, PeerMessageUdp, ReadError};
use coffee_chat::le_int::{put_le, read_le};
use coffee_chat::wire::{
    put_blob, put_id, put_port, put_text, take_blob, take_id, take_number, take_port, take_text,
    PeerInfo,
};

fn sample_info() -> PeerInfo {
    PeerInfo {
        id: 0x0102_0304_0506_0708_090a_0b0c_0d0e_0f10,
        nickname: String::from("mocha"),
        udp_port: 0x1234,
    }
}

#[test]
fn put_le_writes_low_digit_first() {
    let mut out = vec![0xffu8];
    put_le(&mut out, 0x0102_0304, 4);
    assert_eq!(out, vec![0xff, 0x04, 0x03, 0x02, 0x01]);
}

#[test]
fn put_le_keeps_only_the_digits_asked_for() {
    let mut out = Vec::new();
    put_le(&mut out, 0x0102_0304, 2);
    assert_eq!(out, vec![0x04, 0x03]);
    let mut none = Vec::new();
    put_le(&mut none, 77, 0);
    assert!(none.is_empty());
}

#[test]
fn read_le_reads_what_put_le_wrote() {
    let mut out = vec![9u8, 9];
    put_le(&mut out, u128::MAX - 5, 16);
    assert_eq!(read_le(&out, 2, 16), u128::MAX - 5);
    assert_eq!(read_le(&[0x34, 0x12, 0x00], 0, 2), 0x1234);
    assert_eq!(read_le(&[0x34, 0x12, 0x00], 1, 2), 0x0012);
    assert_eq!(read_le(&[1, 2, 3], 3, 0), 0);
}

#[test]
fn handshake_bytes_are_laid_out_field_after_field() {
    let bytes = sample_info().to_bytes();
    let mut expected: Vec<u8> = vec![16, 0, 0, 0, 0, 0, 0, 0];
    expected.extend_from_slice(&[
        0x10, 0x0f, 0x0e, 0x0d, 0x0c, 0x0b, 0x0a, 0x09, 0x08, 0x07, 0x06, 0x05, 0x04, 0x03, 0x02,
        0x01,
    ]);
    expected.extend_from_slice(&[5, 0, 0, 0, 0, 0, 0, 0]);
    expected.extend_from_slice(b"mocha");
    expected.extend_from_slice(&[0x34, 0x12]);
    assert_eq!(bytes, expected);
}

#[test]
fn handshake_round_trip_is_identity() {
    let info = sample_info();
    let back = PeerInfo::from_bytes(&info.to_bytes()).expect("a record that was just written");
    assert_eq!(back.id, info.id);
    assert_eq!(back.nickname, info.nickname);
    assert_eq!(back.udp_port, info.udp_port);
}

#[test]
fn handshake_round_trip_with_empty_and_wide_nicknames() {
    for nick in ["", "æther ☕ кофе 珈琲", "a\u{0}b", "😀"] {
        let info = PeerInfo { id: u128::MAX, nickname: String::from(nick), udp_port: 0 };
        let back = PeerInfo::from_bytes(&info.to_bytes()).expect("a record that was just written");
        assert_eq!(back.id, u128::MAX);
        assert_eq!(back.nickname, nick);
        assert_eq!(back.udp_port, 0);
    }
}

#[test]
fn handshake_reader_leaves_what_follows_untouched() {
    let mut bytes = sample_info().to_bytes();
    bytes.extend_from_slice(&[0xde, 0xad, 0xbe, 0xef]);
    let back = PeerInfo::from_bytes(&bytes).expect("a record followed by other bytes");
    assert_eq!(back.nickname, "mocha");
    assert_eq!(back.udp_port, 0x1234);
}

#[test]
fn handshake_reader_refuses_every_truncation() {
    let bytes = sample_info().to_bytes();
    for end in 0..bytes.len() {
        assert!(PeerInfo::from_bytes(&bytes[..end]).is_none(), "cut at {}", end);
    }
}

#[test]
fn handshake_reader_refuses_a_wrong_identifier_length() {
    let mut bytes = sample_info().to_bytes();
    bytes[0] = 15;
    assert!(PeerInfo::from_bytes(&bytes).is_none());
    bytes[0] = 17;
    assert!(PeerInfo::from_bytes(&bytes).is_none());
}

#[test]
fn handshake_reader_refuses_text_that_is_not_utf8() {
    let mut bytes = sample_info().to_bytes();
    // The nickname starts behind the identifier (8 + 16) and its length (8).
    bytes[32] = 0xff;
    assert!(PeerInfo::from_bytes(&bytes).is_none());
}

#[test]
fn handshake_reader_refuses_a_length_beyond_the_buffer() {
    let mut bytes = sample_info().to_bytes();
    bytes[24] = 200;
    assert!(PeerInfo::from_bytes(&bytes).is_none());
    for k in 24..32 {
        bytes[k] = 0xff;
    }
    assert!(PeerInfo::from_bytes(&bytes).is_none());
}

#[test]
fn handshake_bytes_are_those_of_bincode() {
    let info = sample_info();
    let theirs = bincode::serialize(&(
        uuid::Uuid::from_u128_le(info.id),
        info.nickname.clone(),
        info.udp_port,
    ))
    .expect("bincode writes a tuple");
    assert_eq!(info.to_bytes(), theirs);
    let (id, nick, port): (uuid::Uuid, String, u16) =
        bincode::deserialize(&info.to_bytes()).expect("bincode reads the record");
    assert_eq!(id.to_u128_le(), info.id);
    assert_eq!(nick, info.nickname);
    assert_eq!(port, info.udp_port);
}

#[test]
fn handshake_reader_agrees_with_bincode_on_garbage() {
    let mut seed: u32 = 12345;
    for round in 0..400 {
        let len = (round % 40) as usize;
        let mut bytes = Vec::new();
        for _ in 0..len {
            seed = seed.wrapping_mul(1664525).wrapping_add(1013904223);
            // Small bytes make short lengths likely, so that some inputs parse.
            bytes.push(if seed & 0x300 == 0 { (seed >> 16) as u8 } else { ((seed >> 16) % 3) as u8 });
        }
        let ours = PeerInfo::from_bytes(&bytes);
        let theirs: Result<(uuid::Uuid, String, u16), _> = bincode::deserialize(&bytes);
        match (ours, theirs) {
            (Some(a), Ok((id, nick, port))) => {
                assert_eq!(a.id, id.to_u128_le());
                assert_eq!(a.nickname, nick);
                assert_eq!(a.udp_port, port);
            }
            (None, Err(_)) => {}
            (a, b) => panic!("disagreement on {:?}: {:?} against {:?}", bytes, a, b.is_ok()),
        }
    }
}

#[test]
fn pieces_are_read_where_they_were_written() {
    let mut out = vec![7u8];
    put_id(&mut out, 42);
    put_text(&mut out, "hi");
    put_blob(&mut out, &[1, 2, 3]);
    put_port(&mut out, 65535);
    let (id, next) = take_id(&out, 1).expect("an identifier");
    assert_eq!((id, next), (42, 25));
    let (text, next) = take_text(&out, next).expect("a text");
    assert_eq!((text.as_str(), next), ("hi", 35));
    let (start, end) = take_blob(&out, next).expect("a byte string");
    assert_eq!(&out[start..end], &[1, 2, 3]);
    let (port, next) = take_port(&out, end).expect("a port");
    assert_eq!((port, next), (65535, out.len()));
    assert!(take_port(&out, next).is_none());
    assert_eq!(take_number(&out, 0, 1), Some((7, 1)));
    assert_eq!(take_number(&out, out.len(), 0), Some((0, out.len())));
    assert_eq!(take_number(&out, out.len() + 1, 0), None);
    assert_eq!(take_number(&out, usize::MAX, 16), None);
}

#[test]
fn control_envelopes_have_their_exact_bytes() {
    assert_eq!(PeerMessageTcp::Ping.to_bytes(), vec![0, 0, 0, 0]);
    assert_eq!(PeerMessageTcp::Pong.to_bytes(), vec![1, 0, 0, 0]);
    let chat = PeerMessageTcp::ChatEvent(1, String::from("yo")).to_bytes();
    let mut expected: Vec<u8> = vec![2, 0, 0, 0, 16, 0, 0, 0, 0, 0, 0, 0, 1];
    expected.extend_from_slice(&[0; 15]);
    expected.extend_from_slice(&[2, 0, 0, 0, 0, 0, 0, 0, b'y', b'o']);
    assert_eq!(chat, expected);
}

#[test]
fn data_envelopes_have_their_exact_bytes() {
    assert_eq!(PeerMessageUdp::Ping.to_bytes(), vec![0, 0, 0, 0]);
    assert_eq!(PeerMessageUdp::Pong.to_bytes(), vec![1, 0, 0, 0]);
    let voice = PeerMessageUdp::VoiceData(3, vec![9, 8, 7]).to_bytes();
    let mut expected: Vec<u8> = vec![2, 0, 0, 0, 16, 0, 0, 0, 0, 0, 0, 0, 3];
    expected.extend_from_slice(&[0; 15]);
    expected.extend_from_slice(&[3, 0, 0, 0, 0, 0, 0, 0, 9, 8, 7]);
    assert_eq!(voice, expected);
}

#[test]
fn envelopes_are_those_of_bincode() {
    let id: u128 = 0xfeed_face_cafe_beef_0123_4567_89ab_cdef;
    let chat = PeerMessageTcp::ChatEvent(id, String::from("grüße")).to_bytes();
    let theirs = bincode::serialize(&(2u32, uuid::Uuid::from_u128_le(id), "grüße"))
        .expect("bincode writes a tuple");
    assert_eq!(chat, theirs);
    let voice = PeerMessageUdp::VoiceData(id, vec![0, 255, 7]).to_bytes();
    let theirs = bincode::serialize(&(2u32, uuid::Uuid::from_u128_le(id), vec![0u8, 255, 7]))
        .expect("bincode writes a tuple");
    assert_eq!(voice, theirs);
    assert_eq!(PeerMessageUdp::Pong.to_bytes(), bincode::serialize(&1u32).expect("a tag"));
}

#[test]
fn control_envelope_round_trip_is_identity() {
    match PeerMessageTcp::from_bytes(&PeerMessageTcp::Ping.to_bytes()) {
        Some(PeerMessageTcp::Ping) => {}
        other => panic!("{:?}", other),
    }
    match PeerMessageTcp::from_bytes(&PeerMessageTcp::Pong.to_bytes()) {
        Some(PeerMessageTcp::Pong) => {}
        other => panic!("{:?}", other),
    }
    let chat = PeerMessageTcp::ChatEvent(77, String::from("hello"));
    match PeerMessageTcp::from_bytes(&chat.to_bytes()) {
        Some(PeerMessageTcp::ChatEvent(77, text)) => assert_eq!(text, "hello"),
        other => panic!("{:?}", other),
    }
}

#[test]
fn data_envelope_round_trip_is_identity() {
    match PeerMessageUdp::from_bytes(&PeerMessageUdp::Ping.to_bytes()) {
        Some(PeerMessageUdp::Ping) => {}
        other => panic!("{:?}", other),
    }
    match PeerMessageUdp::from_bytes(&PeerMessageUdp::Pong.to_bytes()) {
        Some(PeerMessageUdp::Pong) => {}
        other => panic!("{:?}", other),
    }
    let voice = PeerMessageUdp::VoiceData(5, vec![1, 2, 3, 4]);
    match PeerMessageUdp::from_bytes(&voice.to_bytes()) {
        Some(PeerMessageUdp::VoiceData(5, payload)) => assert_eq!(payload, vec![1, 2, 3, 4]),
        other => panic!("{:?}", other),
    }
    match PeerMessageUdp::from_bytes(&PeerMessageUdp::VoiceData(5, Vec::new()).to_bytes()) {
        Some(PeerMessageUdp::VoiceData(5, payload)) => assert!(payload.is_empty()),
        other => panic!("{:?}", other),
    }
}

#[test]
fn envelope_readers_refuse_unknown_tags_and_truncations() {
    assert!(PeerMessageTcp::from_bytes(&[3, 0, 0, 0]).is_none());
    assert!(PeerMessageUdp::from_bytes(&[3, 0, 0, 0]).is_none());
    assert!(PeerMessageTcp::from_bytes(&[0, 1, 0, 0]).is_none());
    assert!(PeerMessageTcp::from_bytes(&[0, 0, 0]).is_none());
    assert!(PeerMessageUdp::from_bytes(&[]).is_none());
    let chat = PeerMessageTcp::ChatEvent(1, String::from("cut")).to_bytes();
    for end in 4..chat.len() {
        assert!(PeerMessageTcp::from_bytes(&chat[..end]).is_none(), "cut at {}", end);
    }
    let voice = PeerMessageUdp::VoiceData(1, vec![1, 2]).to_bytes();
    for end in 4..voice.len() {
        assert!(PeerMessageUdp::from_bytes(&voice[..end]).is_none(), "cut at {}", end);
    }
}

#[test]
fn a_read_is_told_apart_by_its_outcome() {
    let mut buffer = PeerMessageUdp::Ping.to_bytes();
    buffer.resize(1024, 0xaa);
    match PeerMessageUdp::new_from_read(Some(4), &buffer) {
        Ok(PeerMessageUdp::Ping) => {}
        other => panic!("{:?}", other),
    }
    assert_eq!(PeerMessageUdp::new_from_read(None, &buffer).err(), Some(ReadError::Failed));
    assert_eq!(PeerMessageUdp::new_from_read(Some(0), &buffer).err(), Some(ReadError::Closed));
    assert_eq!(PeerMessageUdp::new_from_read(Some(3), &buffer).err(), Some(ReadError::Malformed));
    assert_eq!(PeerMessageTcp::new_from_read(None, &buffer).err(), Some(ReadError::Failed));
    assert_eq!(PeerMessageTcp::new_from_read(Some(0), &buffer).err(), Some(ReadError::Closed));
    assert_eq!(PeerMessageTcp::new_from_read(Some(2), &buffer).err(), Some(ReadError::Malformed));
    assert_eq!(PeerInfo::new_from_read(None, &buffer).err(), Some(ReadError::Failed));
    assert_eq!(PeerInfo::new_from_read(Some(0), &buffer).err(), Some(ReadError::Closed));
    assert_eq!(PeerInfo::new_from_read(Some(1024), &buffer).err(), Some(ReadError::Malformed));
    let record = sample_info().to_bytes();
    let mut buffer = record.clone();
    buffer.resize(1024, 0);
    let info = PeerInfo::new_from_read(Some(record.len()), &buffer).expect("the record");
    assert_eq!(info.nickname, "mocha");
}

/// Bytes that are likely to hold short lengths and small tags, so that a good
/// part of them reads as something.
fn likely_bytes(seed: &mut u32, len: usize) -> Vec<u8> {
    let mut bytes = Vec::new();
    for _ in 0..len {
        *seed = seed.wrapping_mul(1664525).wrapping_add(1013904223);
        bytes.push(if *seed & 0x300 == 0 { (*seed >> 16) as u8 } else { ((*seed >> 16) % 3) as u8 });
    }
    bytes
}

#[test]
fn envelope_readers_agree_with_bincode_on_garbage() {
    let mut seed: u32 = 2024;
    let mut read_as_chat = 0;
    let mut read_as_voice = 0;
    for round in 0..3000 {
        let mut bytes = likely_bytes(&mut seed, round % 48);
        if round % 3 == 0 && bytes.len() >= 12 {
            // Help the reader past the tag and the identifier's length.
            bytes[..12].copy_from_slice(&[2, 0, 0, 0, 16, 0, 0, 0, 0, 0, 0, 0]);
        }
        if round % 6 == 0 && bytes.len() >= 36 {
            // And to a short length of what follows the identifier.
            bytes[28..36].copy_from_slice(&[(round % 14) as u8, 0, 0, 0, 0, 0, 0, 0]);
        }
        let tag: Option<u32> = bincode::deserialize(&bytes).ok();
        let body = if bytes.len() >= 4 { &bytes[4..] } else { &bytes[..0] };
        let chat: Option<(uuid::Uuid, String)> = bincode::deserialize(body).ok();
        let voice: Option<(uuid::Uuid, Vec<u8>)> = bincode::deserialize(body).ok();
        match (PeerMessageTcp::from_bytes(&bytes), tag) {
            (Some(PeerMessageTcp::Ping), Some(0)) | (Some(PeerMessageTcp::Pong), Some(1)) => {}
            (Some(PeerMessageTcp::ChatEvent(sender, text)), Some(2)) => {
                assert_eq!(chat, Some((uuid::Uuid::from_u128_le(sender), text)));
                read_as_chat += 1;
            }
            (None, Some(2)) => assert_eq!(chat, None, "{:?}", bytes),
            (None, Some(0)) | (None, Some(1)) => panic!("a bare tag was refused: {:?}", bytes),
            (None, _) => {}
            (ours, theirs) => panic!("{:?} against tag {:?} on {:?}", ours, theirs, bytes),
        }
        match (PeerMessageUdp::from_bytes(&bytes), tag) {
            (Some(PeerMessageUdp::Ping), Some(0)) | (Some(PeerMessageUdp::Pong), Some(1)) => {}
            (Some(PeerMessageUdp::VoiceData(sender, payload)), Some(2)) => {
                assert_eq!(voice, Some((uuid::Uuid::from_u128_le(sender), payload)));
                read_as_voice += 1;
            }
            (None, Some(2)) => assert_eq!(voice, None, "{:?}", bytes),
            (None, Some(0)) | (None, Some(1)) => panic!("a bare tag was refused: {:?}", bytes),
            (None, _) => {}
            (ours, theirs) => panic!("{:?} against tag {:?} on {:?}", ours, theirs, bytes),
        }
    }
    assert!(read_as_chat > 20, "only {} inputs read as a chat line", read_as_chat);
    assert!(read_as_voice > 20, "only {} inputs read as voice data", read_as_voice);
}

#[test]
fn a_copy_of_an_envelope_has_the_same_bytes() {
    let chat = PeerMessageTcp::ChatEvent(7, String::from("twice"));
    assert_eq!(chat.clone().to_bytes(), chat.to_bytes());
    let voice = PeerMessageUdp::VoiceData(7, vec![1, 2, 3]);
    assert_eq!(voice.clone().to_bytes(), voice.to_bytes());
    assert_eq!(PeerMessageUdp::Ping.clone().to_bytes(), vec![0, 0, 0, 0]);
    let info = sample_info();
    assert_eq!(info.clone().to_bytes(), info.to_bytes());
}
