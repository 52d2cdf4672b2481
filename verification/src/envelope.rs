//! The two envelope families: what travels on the control channel and what
//! travels on the data channel once the handshake is done.
//!
//! An envelope is a 32-bit tag followed by the fields of the tagged variant.

use crate::le_int::{le_digits, lemma_le_digits_len, lemma_le_max_values, put_le};
use crate::wire::{
    blob_fits, blob_wire, id_wire, lemma_parse_blob_written, lemma_parse_id_written,
    lemma_parse_number_written, lemma_parse_text_written, parse_blob, parse_id, parse_number,
    parse_handshake, parse_text, put_blob, put_id, put_text, take_blob, take_id, take_number,
    take_text, text_fits, text_wire, PeerId, PeerInfo, PeerInfoView, ID_WIDTH, LEN_WIDTH,
    TAG_WIDTH,
};
use vstd::prelude::*;
use vstd::slice::*;

verus! {

/// The tag of a liveness probe, on either channel.
pub const TAG_PING: u32 = 0;

/// The tag of the answer to a probe, on either channel.
pub const TAG_PONG: u32 = 1;

/// The tag of the variant that carries a payload: a chat line on the control
/// channel, voice data on the data channel.
pub const TAG_PAYLOAD: u32 = 2;

/// The longest read that is taken from either channel at once.
pub const READ_LIMIT: usize = 1024;

/// Why a read yielded no envelope.
#[derive(Debug, Clone, Copy, PartialEq, Eq, Structural)]
pub enum ReadError {
    /// The read itself failed.
    Failed,
    /// The read returned no bytes: the other side is gone.
    Closed,
    /// The bytes do not start with an envelope.
    Malformed,
}

/// An envelope of the control channel.
#[derive(Debug)]
pub enum PeerMessageTcp {
    Ping,
    Pong,
    /// A chat line and the peer it comes from.
    ChatEvent(PeerId, String),
}

/// The mathematical content of a [`PeerMessageTcp`].
pub enum PeerMessageTcpView {
    Ping,
    Pong,
    ChatEvent(PeerId, Seq<char>),
}

impl View for PeerMessageTcp {
    type V = PeerMessageTcpView;

    open spec fn view(&self) -> PeerMessageTcpView {
        match self {
            PeerMessageTcp::Ping => PeerMessageTcpView::Ping,
            PeerMessageTcp::Pong => PeerMessageTcpView::Pong,
            PeerMessageTcp::ChatEvent(sender, text) => PeerMessageTcpView::ChatEvent(
                *sender,
                text@,
            ),
        }
    }
}

/// An envelope of the data channel.
#[derive(Debug)]
pub enum PeerMessageUdp {
    Ping,
    Pong,
    /// Voice data and the peer it comes from; the payload is not interpreted.
    VoiceData(PeerId, Vec<u8>),
}

/// The mathematical content of a [`PeerMessageUdp`].
pub enum PeerMessageUdpView {
    Ping,
    Pong,
    VoiceData(PeerId, Seq<u8>),
}

impl View for PeerMessageUdp {
    type V = PeerMessageUdpView;

    open spec fn view(&self) -> PeerMessageUdpView {
        match self {
            PeerMessageUdp::Ping => PeerMessageUdpView::Ping,
            PeerMessageUdp::Pong => PeerMessageUdpView::Pong,
            PeerMessageUdp::VoiceData(sender, payload) => PeerMessageUdpView::VoiceData(
                *sender,
                payload@,
            ),
        }
    }
}

impl Clone for PeerMessageTcp {
    /// A copy with the same content.
    fn clone(&self) -> (copy: PeerMessageTcp)
        ensures
            copy@ == self@,
    {
        match self {
            PeerMessageTcp::Ping => PeerMessageTcp::Ping,
            PeerMessageTcp::Pong => PeerMessageTcp::Pong,
            PeerMessageTcp::ChatEvent(sender, text) => PeerMessageTcp::ChatEvent(
                *sender,
                text.clone(),
            ),
        }
    }
}

impl Clone for PeerMessageUdp {
    /// A copy with the same content.
    fn clone(&self) -> (copy: PeerMessageUdp)
        ensures
            copy@ == self@,
    {
        match self {
            PeerMessageUdp::Ping => PeerMessageUdp::Ping,
            PeerMessageUdp::Pong => PeerMessageUdp::Pong,
            PeerMessageUdp::VoiceData(sender, payload) => PeerMessageUdp::VoiceData(
                *sender,
                slice_to_vec(payload.as_slice()),
            ),
        }
    }
}

/// An envelope's tag.
pub open spec fn tag_wire(tag: u32) -> Seq<u8> {
    le_digits(tag as nat, TAG_WIDTH as nat)
}

/// A control-channel envelope as it goes on the wire.
pub open spec fn control_wire(message: PeerMessageTcpView) -> Seq<u8> {
    match message {
        PeerMessageTcpView::Ping => tag_wire(TAG_PING),
        PeerMessageTcpView::Pong => tag_wire(TAG_PONG),
        PeerMessageTcpView::ChatEvent(sender, text) => tag_wire(TAG_PAYLOAD) + id_wire(sender)
            + text_wire(text),
    }
}

/// A data-channel envelope as it goes on the wire.
pub open spec fn data_wire(message: PeerMessageUdpView) -> Seq<u8> {
    match message {
        PeerMessageUdpView::Ping => tag_wire(TAG_PING),
        PeerMessageUdpView::Pong => tag_wire(TAG_PONG),
        PeerMessageUdpView::VoiceData(sender, payload) => tag_wire(TAG_PAYLOAD) + id_wire(sender)
            + blob_wire(payload),
    }
}

/// A control-channel envelope can be written when its text fits.
pub open spec fn control_fits(message: PeerMessageTcpView) -> bool {
    message matches PeerMessageTcpView::ChatEvent(_, text) ==> text_fits(text)
}

/// A data-channel envelope can be written when its payload fits.
pub open spec fn data_fits(message: PeerMessageUdpView) -> bool {
    message matches PeerMessageUdpView::VoiceData(_, payload) ==> blob_fits(payload)
}

/// Reads a control-channel envelope from the front of `bytes`.
pub open spec fn parse_control(bytes: Seq<u8>) -> Option<PeerMessageTcpView> {
    match parse_number(bytes, 0, TAG_WIDTH as nat) {
        Some((tag, body)) => if tag == TAG_PING {
            Some(PeerMessageTcpView::Ping)
        } else if tag == TAG_PONG {
            Some(PeerMessageTcpView::Pong)
        } else if tag == TAG_PAYLOAD {
            match parse_id(bytes, body) {
                Some((sender, after_id)) => match parse_text(bytes, after_id) {
                    Some((text, _)) => Some(PeerMessageTcpView::ChatEvent(sender, text)),
                    None => None,
                },
                None => None,
            }
        } else {
            None
        },
        None => None,
    }
}

/// Reads a data-channel envelope from the front of `bytes`.
pub open spec fn parse_data(bytes: Seq<u8>) -> Option<PeerMessageUdpView> {
    match parse_number(bytes, 0, TAG_WIDTH as nat) {
        Some((tag, body)) => if tag == TAG_PING {
            Some(PeerMessageUdpView::Ping)
        } else if tag == TAG_PONG {
            Some(PeerMessageUdpView::Pong)
        } else if tag == TAG_PAYLOAD {
            match parse_id(bytes, body) {
                Some((sender, after_id)) => match parse_blob(bytes, after_id) {
                    Some((payload, _)) => Some(PeerMessageUdpView::VoiceData(sender, payload)),
                    None => None,
                },
                None => None,
            }
        } else {
            None
        },
        None => None,
    }
}

/// What a read from a channel amounts to, given how many bytes it returned
/// (`None` when it failed) and the buffer it filled.
pub open spec fn read_prefix(read: Option<usize>, bytes: Seq<u8>) -> Result<Seq<u8>, ReadError> {
    match read {
        None => Err(ReadError::Failed),
        Some(count) => if count == 0 {
            Err(ReadError::Closed)
        } else {
            Ok(bytes.subrange(0, count as int))
        },
    }
}

/// The handshake record that a read amounts to.
pub open spec fn handshake_of_read(read: Option<usize>, bytes: Seq<u8>) -> Result<
    PeerInfoView,
    ReadError,
> {
    match read_prefix(read, bytes) {
        Ok(prefix) => match parse_handshake(prefix) {
            Some(info) => Ok(info),
            None => Err(ReadError::Malformed),
        },
        Err(e) => Err(e),
    }
}

/// The data-channel envelope that a read amounts to.
pub open spec fn data_of_read(read: Option<usize>, bytes: Seq<u8>) -> Result<
    PeerMessageUdpView,
    ReadError,
> {
    match read_prefix(read, bytes) {
        Ok(prefix) => match parse_data(prefix) {
            Some(message) => Ok(message),
            None => Err(ReadError::Malformed),
        },
        Err(e) => Err(e),
    }
}

/// The control-channel envelope that a read amounts to.
pub open spec fn control_of_read(read: Option<usize>, bytes: Seq<u8>) -> Result<
    PeerMessageTcpView,
    ReadError,
> {
    match read_prefix(read, bytes) {
        Ok(prefix) => match parse_control(prefix) {
            Some(message) => Ok(message),
            None => Err(ReadError::Malformed),
        },
        Err(e) => Err(e),
    }
}

/// Writing a control-channel envelope and reading it back is the identity,
/// whatever bytes follow the envelope.
pub proof fn lemma_control_round_trip(message: PeerMessageTcpView, rest: Seq<u8>)
    requires
        control_fits(message),
    ensures
        parse_control(control_wire(message) + rest) == Some(message),
{
    let all = control_wire(message) + rest;
    let empty = Seq::<u8>::empty();
    lemma_le_max_values();
    match message {
        PeerMessageTcpView::Ping => {
            lemma_parse_number_written(empty, TAG_PING as nat, TAG_WIDTH as nat, rest);
            assert(all =~= empty + tag_wire(TAG_PING) + rest);
        },
        PeerMessageTcpView::Pong => {
            lemma_parse_number_written(empty, TAG_PONG as nat, TAG_WIDTH as nat, rest);
            assert(all =~= empty + tag_wire(TAG_PONG) + rest);
        },
        PeerMessageTcpView::ChatEvent(sender, text) => {
            let tag = tag_wire(TAG_PAYLOAD);
            let id_part = id_wire(sender);
            let text_part = text_wire(text);
            lemma_le_digits_len(TAG_PAYLOAD as nat, TAG_WIDTH as nat);
            lemma_le_digits_len(sender as nat, ID_WIDTH as nat);
            lemma_le_digits_len(ID_WIDTH as nat, LEN_WIDTH as nat);
            lemma_parse_number_written(
                empty,
                TAG_PAYLOAD as nat,
                TAG_WIDTH as nat,
                id_part + text_part + rest,
            );
            assert(all =~= empty + tag + (id_part + text_part + rest));
            lemma_parse_id_written(tag, sender, text_part + rest);
            assert(all =~= tag + id_part + (text_part + rest));
            lemma_parse_text_written(tag + id_part, text, rest);
            assert(all =~= (tag + id_part) + text_part + rest);
        },
    }
}

/// Writing a data-channel envelope and reading it back is the identity,
/// whatever bytes follow the envelope.
pub proof fn lemma_data_round_trip(message: PeerMessageUdpView, rest: Seq<u8>)
    requires
        data_fits(message),
    ensures
        parse_data(data_wire(message) + rest) == Some(message),
{
    let all = data_wire(message) + rest;
    let empty = Seq::<u8>::empty();
    lemma_le_max_values();
    match message {
        PeerMessageUdpView::Ping => {
            lemma_parse_number_written(empty, TAG_PING as nat, TAG_WIDTH as nat, rest);
            assert(all =~= empty + tag_wire(TAG_PING) + rest);
        },
        PeerMessageUdpView::Pong => {
            lemma_parse_number_written(empty, TAG_PONG as nat, TAG_WIDTH as nat, rest);
            assert(all =~= empty + tag_wire(TAG_PONG) + rest);
        },
        PeerMessageUdpView::VoiceData(sender, payload) => {
            let tag = tag_wire(TAG_PAYLOAD);
            let id_part = id_wire(sender);
            let body = blob_wire(payload);
            lemma_le_digits_len(TAG_PAYLOAD as nat, TAG_WIDTH as nat);
            lemma_le_digits_len(sender as nat, ID_WIDTH as nat);
            lemma_le_digits_len(ID_WIDTH as nat, LEN_WIDTH as nat);
            lemma_parse_number_written(
                empty,
                TAG_PAYLOAD as nat,
                TAG_WIDTH as nat,
                id_part + body + rest,
            );
            assert(all =~= empty + tag + (id_part + body + rest));
            lemma_parse_id_written(tag, sender, body + rest);
            assert(all =~= tag + id_part + (body + rest));
            lemma_parse_blob_written(tag + id_part, payload, rest);
            assert(all =~= (tag + id_part) + body + rest);
        },
    }
}

/// Appends an envelope's tag.
pub fn put_tag(out: &mut Vec<u8>, tag: u32)
    ensures
        final(out)@ == old(out)@ + tag_wire(tag),
{
    put_le(out, tag as u128, TAG_WIDTH);
}

/// Reads an envelope's tag from the front of `bytes`.
pub fn take_tag(bytes: &[u8]) -> (r: Option<(u32, usize)>)
    ensures
        match parse_number(bytes@, 0, TAG_WIDTH as nat) {
            Some((tag, next)) => r == Some((tag as u32, next as usize)) && tag <= u32::MAX
                && next <= bytes@.len(),
            None => r is None,
        },
{
    match take_number(bytes, 0, TAG_WIDTH) {
        Some((tag, next)) => {
            proof {
                lemma_le_max_values();
            }
            Some((tag as u32, next))
        },
        None => None,
    }
}

impl PeerInfo {
    /// The handshake record that a read from the control channel amounts to:
    /// `read` is the number of bytes that the read returned, or `None` when it
    /// failed, and `bytes` the buffer that it filled.
    pub fn new_from_read(read: Option<usize>, bytes: &[u8]) -> (r: Result<PeerInfo, ReadError>)
        requires
            read matches Some(count) ==> count <= bytes@.len(),
        ensures
            match handshake_of_read(read, bytes@) {
                Ok(info) => r is Ok && r->Ok_0@ == info,
                Err(e) => r == Err::<PeerInfo, ReadError>(e),
            },
    {
        match read {
            None => Err(ReadError::Failed),
            Some(count) => {
                if count < 1 {
                    Err(ReadError::Closed)
                } else {
                    match PeerInfo::from_bytes(slice_subrange(bytes, 0, count)) {
                        Some(info) => Ok(info),
                        None => Err(ReadError::Malformed),
                    }
                }
            },
        }
    }
}

impl PeerMessageTcp {
    /// The envelope as it goes on the control channel.
    pub fn to_bytes(&self) -> (out: Vec<u8>)
        ensures
            out@ == control_wire(self@),
            control_fits(self@),
    {
        let mut out: Vec<u8> = Vec::new();
        match self {
            PeerMessageTcp::Ping => {
                put_tag(&mut out, TAG_PING);
            },
            PeerMessageTcp::Pong => {
                put_tag(&mut out, TAG_PONG);
            },
            PeerMessageTcp::ChatEvent(sender, text) => {
                put_tag(&mut out, TAG_PAYLOAD);
                put_id(&mut out, *sender);
                put_text(&mut out, text.as_str());
            },
        }
        proof {
            assert(out@ =~= control_wire(self@));
        }
        out
    }

    /// Reads an envelope from the front of `bytes`; `None` when the bytes do
    /// not start with one.
    pub fn from_bytes(bytes: &[u8]) -> (r: Option<PeerMessageTcp>)
        ensures
            match parse_control(bytes@) {
                Some(message) => r is Some && r->0@ == message,
                None => r is None,
            },
    {
        match take_tag(bytes) {
            Some((tag, body)) => {
                if tag == TAG_PING {
                    Some(PeerMessageTcp::Ping)
                } else if tag == TAG_PONG {
                    Some(PeerMessageTcp::Pong)
                } else if tag == TAG_PAYLOAD {
                    match take_id(bytes, body) {
                        Some((sender, after_id)) => match take_text(bytes, after_id) {
                            Some((text, _)) => Some(PeerMessageTcp::ChatEvent(sender, text)),
                            None => None,
                        },
                        None => None,
                    }
                } else {
                    None
                }
            },
            None => None,
        }
    }

    /// The envelope that a read from the control channel amounts to: `read` is
    /// the number of bytes that the read returned, or `None` when it failed,
    /// and `bytes` the buffer that it filled.
    pub fn new_from_read(read: Option<usize>, bytes: &[u8]) -> (r: Result<
        PeerMessageTcp,
        ReadError,
    >)
        requires
            read matches Some(count) ==> count <= bytes@.len(),
        ensures
            match control_of_read(read, bytes@) {
                Ok(message) => r is Ok && r->Ok_0@ == message,
                Err(e) => r == Err::<PeerMessageTcp, ReadError>(e),
            },
    {
        match read {
            None => Err(ReadError::Failed),
            Some(count) => {
                if count < 1 {
                    Err(ReadError::Closed)
                } else {
                    match PeerMessageTcp::from_bytes(slice_subrange(bytes, 0, count)) {
                        Some(message) => Ok(message),
                        None => Err(ReadError::Malformed),
                    }
                }
            },
        }
    }
}

impl PeerMessageUdp {
    /// The envelope as it goes on the data channel.
    pub fn to_bytes(&self) -> (out: Vec<u8>)
        ensures
            out@ == data_wire(self@),
            data_fits(self@),
    {
        let mut out: Vec<u8> = Vec::new();
        match self {
            PeerMessageUdp::Ping => {
                put_tag(&mut out, TAG_PING);
            },
            PeerMessageUdp::Pong => {
                put_tag(&mut out, TAG_PONG);
            },
            PeerMessageUdp::VoiceData(sender, payload) => {
                put_tag(&mut out, TAG_PAYLOAD);
                put_id(&mut out, *sender);
                put_blob(&mut out, payload.as_slice());
            },
        }
        proof {
            assert(out@ =~= data_wire(self@));
        }
        out
    }

    /// Reads an envelope from the front of `bytes`; `None` when the bytes do
    /// not start with one.
    pub fn from_bytes(bytes: &[u8]) -> (r: Option<PeerMessageUdp>)
        ensures
            match parse_data(bytes@) {
                Some(message) => r is Some && r->0@ == message,
                None => r is None,
            },
    {
        match take_tag(bytes) {
            Some((tag, body)) => {
                if tag == TAG_PING {
                    Some(PeerMessageUdp::Ping)
                } else if tag == TAG_PONG {
                    Some(PeerMessageUdp::Pong)
                } else if tag == TAG_PAYLOAD {
                    match take_id(bytes, body) {
                        Some((sender, after_id)) => match take_blob(bytes, after_id) {
                            Some((start, end)) => {
                                let payload: Vec<u8> = slice_to_vec(
                                    slice_subrange(bytes, start, end),
                                );
                                Some(PeerMessageUdp::VoiceData(sender, payload))
                            },
                            None => None,
                        },
                        None => None,
                    }
                } else {
                    None
                }
            },
            None => None,
        }
    }

    /// The envelope that a read from the data channel amounts to: `read` is
    /// the number of bytes that the read returned, or `None` when it failed,
    /// and `bytes` the buffer that it filled.
    pub fn new_from_read(read: Option<usize>, bytes: &[u8]) -> (r: Result<
        PeerMessageUdp,
        ReadError,
    >)
        requires
            read matches Some(count) ==> count <= bytes@.len(),
        ensures
            match data_of_read(read, bytes@) {
                Ok(message) => r is Ok && r->Ok_0@ == message,
                Err(e) => r == Err::<PeerMessageUdp, ReadError>(e),
            },
    {
        match read {
            None => Err(ReadError::Failed),
            Some(count) => {
                if count < 1 {
                    Err(ReadError::Closed)
                } else {
                    match PeerMessageUdp::from_bytes(slice_subrange(bytes, 0, count)) {
                        Some(message) => Ok(message),
                        None => Err(ReadError::Malformed),
                    }
                }
            },
        }
    }
}

} // verus!
