//! The wire format: the handshake record and the pieces that the two
//! envelope families are built from.
//!
//! Every value is laid out field after field. Integers are fixed-width and
//! little-endian; a byte string, a text or an identifier is preceded by its
//! length in bytes as a 64-bit integer. A reader takes what it needs from the
//! front of the buffer and leaves whatever follows untouched.

use crate::le_int::{
    le_digits, le_max, le_number, lemma_le_digits_len, lemma_le_digits_of_number,
    lemma_le_max_values, lemma_le_number_bound, lemma_le_number_of_digits, put_le, read_le,
};
use vstd::prelude::*;
use vstd::slice::*;
use vstd::utf8::*;

verus! {

/// Identifies a peer: 128 bits, carried on the wire as its sixteen
/// little-endian digits.
pub type PeerId = u128;

/// The byte width of a length prefix.
pub const LEN_WIDTH: usize = 8;

/// The byte width of an identifier's payload.
pub const ID_WIDTH: usize = 16;

/// The byte width of a port number.
pub const PORT_WIDTH: usize = 2;

/// The byte width of an envelope's tag.
pub const TAG_WIDTH: usize = 4;

/// What a peer tells the other side right after connecting.
#[derive(Debug)]
pub struct PeerInfo {
    pub id: PeerId,
    pub nickname: String,
    pub udp_port: u16,
}

/// The mathematical content of a [`PeerInfo`].
pub struct PeerInfoView {
    pub id: PeerId,
    pub nickname: Seq<char>,
    pub udp_port: u16,
}

impl View for PeerInfo {
    type V = PeerInfoView;

    open spec fn view(&self) -> PeerInfoView {
        PeerInfoView { id: self.id, nickname: self.nickname@, udp_port: self.udp_port }
    }
}

/// A length-prefixed byte string.
pub open spec fn blob_wire(raw: Seq<u8>) -> Seq<u8> {
    le_digits(raw.len(), LEN_WIDTH as nat) + raw
}

/// An identifier: a byte string of its sixteen digits.
pub open spec fn id_wire(id: PeerId) -> Seq<u8> {
    blob_wire(le_digits(id as nat, ID_WIDTH as nat))
}

/// A text: the byte string of its UTF-8 encoding.
pub open spec fn text_wire(text: Seq<char>) -> Seq<u8> {
    blob_wire(encode_utf8(text))
}

/// A port number.
pub open spec fn port_wire(port: u16) -> Seq<u8> {
    le_digits(port as nat, PORT_WIDTH as nat)
}

/// The handshake record: identifier, nickname, port.
pub open spec fn handshake_wire(info: PeerInfoView) -> Seq<u8> {
    id_wire(info.id) + text_wire(info.nickname) + port_wire(info.udp_port)
}

/// A value can be written when its length fits the 64-bit prefix.
pub open spec fn blob_fits(raw: Seq<u8>) -> bool {
    raw.len() <= le_max(LEN_WIDTH as nat)
}

/// A text can be written when its encoding's length fits the prefix.
pub open spec fn text_fits(text: Seq<char>) -> bool {
    blob_fits(encode_utf8(text))
}

/// Reads `width` digits at `at`: the number and the position behind it.
pub open spec fn parse_number(bytes: Seq<u8>, at: int, width: nat) -> Option<(nat, int)> {
    if 0 <= at && at + width <= bytes.len() {
        Some((le_number(bytes.subrange(at, at + width)), at + width))
    } else {
        None
    }
}

/// Reads a length-prefixed byte string at `at`.
pub open spec fn parse_blob(bytes: Seq<u8>, at: int) -> Option<(Seq<u8>, int)> {
    match parse_number(bytes, at, LEN_WIDTH as nat) {
        Some((len, start)) => if start + len <= bytes.len() {
            Some((bytes.subrange(start, start + len), start + len))
        } else {
            None
        },
        None => None,
    }
}

/// Reads an identifier at `at`: a byte string of exactly sixteen bytes.
pub open spec fn parse_id(bytes: Seq<u8>, at: int) -> Option<(PeerId, int)> {
    match parse_blob(bytes, at) {
        Some((raw, next)) => if raw.len() == ID_WIDTH {
            Some((le_number(raw) as PeerId, next))
        } else {
            None
        },
        None => None,
    }
}

/// Reads a text at `at`: a byte string that is well-formed UTF-8.
pub open spec fn parse_text(bytes: Seq<u8>, at: int) -> Option<(Seq<char>, int)> {
    match parse_blob(bytes, at) {
        Some((raw, next)) => if valid_utf8(raw) {
            Some((decode_utf8(raw), next))
        } else {
            None
        },
        None => None,
    }
}

/// Reads a port number at `at`.
pub open spec fn parse_port(bytes: Seq<u8>, at: int) -> Option<(u16, int)> {
    match parse_number(bytes, at, PORT_WIDTH as nat) {
        Some((port, next)) => Some((port as u16, next)),
        None => None,
    }
}

/// Reads a handshake record from the front of `bytes`.
pub open spec fn parse_handshake(bytes: Seq<u8>) -> Option<PeerInfoView> {
    match parse_id(bytes, 0) {
        Some((id, after_id)) => match parse_text(bytes, after_id) {
            Some((nickname, after_nick)) => match parse_port(bytes, after_nick) {
                Some((udp_port, _)) => Some(PeerInfoView { id, nickname, udp_port }),
                None => None,
            },
            None => None,
        },
        None => None,
    }
}

/// A number written between any two byte strings is read back from there.
pub proof fn lemma_parse_number_written(pre: Seq<u8>, v: nat, width: nat, post: Seq<u8>)
    requires
        v <= le_max(width),
    ensures
        parse_number(pre + le_digits(v, width) + post, pre.len() as int, width) == Some(
            (v, (pre.len() + width) as int),
        ),
{
    let all = pre + le_digits(v, width) + post;
    lemma_le_digits_len(v, width);
    lemma_le_number_of_digits(v, width);
    assert(all.subrange(pre.len() as int, (pre.len() + width) as int) =~= le_digits(v, width));
}

/// A byte string written between any two byte strings is read back from there.
pub proof fn lemma_parse_blob_written(pre: Seq<u8>, raw: Seq<u8>, post: Seq<u8>)
    requires
        blob_fits(raw),
    ensures
        parse_blob(pre + blob_wire(raw) + post, pre.len() as int) == Some(
            (raw, (pre.len() + LEN_WIDTH + raw.len()) as int),
        ),
{
    let all = pre + blob_wire(raw) + post;
    let width = LEN_WIDTH as nat;
    lemma_le_digits_len(raw.len(), width);
    lemma_parse_number_written(pre, raw.len(), width, raw + post);
    assert(all =~= pre + le_digits(raw.len(), width) + (raw + post));
    let start = (pre.len() + width) as int;
    assert(all.subrange(start, start + raw.len()) =~= raw);
}

/// An identifier written between any two byte strings is read back from there.
pub proof fn lemma_parse_id_written(pre: Seq<u8>, id: PeerId, post: Seq<u8>)
    ensures
        parse_id(pre + id_wire(id) + post, pre.len() as int) == Some(
            (id, (pre.len() + LEN_WIDTH + ID_WIDTH) as int),
        ),
{
    let raw = le_digits(id as nat, ID_WIDTH as nat);
    lemma_le_max_values();
    lemma_le_digits_len(id as nat, ID_WIDTH as nat);
    lemma_le_number_of_digits(id as nat, ID_WIDTH as nat);
    lemma_parse_blob_written(pre, raw, post);
}

/// A text written between any two byte strings is read back from there.
pub proof fn lemma_parse_text_written(pre: Seq<u8>, text: Seq<char>, post: Seq<u8>)
    requires
        text_fits(text),
    ensures
        parse_text(pre + text_wire(text) + post, pre.len() as int) == Some(
            (text, (pre.len() + LEN_WIDTH + encode_utf8(text).len()) as int),
        ),
{
    encode_utf8_valid_utf8(text);
    encode_utf8_decode_utf8(text);
    lemma_parse_blob_written(pre, encode_utf8(text), post);
}

/// A port number written between any two byte strings is read back from there.
pub proof fn lemma_parse_port_written(pre: Seq<u8>, port: u16, post: Seq<u8>)
    ensures
        parse_port(pre + port_wire(port) + post, pre.len() as int) == Some(
            (port, (pre.len() + PORT_WIDTH) as int),
        ),
{
    lemma_le_max_values();
    lemma_parse_number_written(pre, port as nat, PORT_WIDTH as nat, post);
}

/// Writing a handshake record and reading it back is the identity on the
/// identifier, the nickname and the port, whatever bytes follow the record.
pub proof fn lemma_handshake_round_trip(info: PeerInfoView, rest: Seq<u8>)
    requires
        text_fits(info.nickname),
    ensures
        parse_handshake(handshake_wire(info) + rest) == Some(info),
{
    let id_part = id_wire(info.id);
    let nick_part = text_wire(info.nickname);
    let port_part = port_wire(info.udp_port);
    let all = handshake_wire(info) + rest;
    let empty = Seq::<u8>::empty();
    lemma_le_digits_len(info.id as nat, ID_WIDTH as nat);
    lemma_le_digits_len(16, LEN_WIDTH as nat);
    lemma_le_digits_len(encode_utf8(info.nickname).len(), LEN_WIDTH as nat);
    lemma_parse_id_written(empty, info.id, nick_part + port_part + rest);
    assert(all =~= empty + id_part + (nick_part + port_part + rest));
    lemma_parse_text_written(id_part, info.nickname, port_part + rest);
    assert(all =~= id_part + nick_part + (port_part + rest));
    lemma_parse_port_written(id_part + nick_part, info.udp_port, rest);
    assert(all =~= (id_part + nick_part) + port_part + rest);
}

/// A number that was read stands there as its digits.
pub proof fn lemma_parse_number_is_written(bytes: Seq<u8>, at: int, width: nat)
    requires
        parse_number(bytes, at, width) is Some,
    ensures
        ({
            let (v, next) = parse_number(bytes, at, width)->0;
            &&& next == at + width
            &&& v <= le_max(width)
            &&& bytes.subrange(at, next) == le_digits(v, width)
        }),
{
    let digits = bytes.subrange(at, at + width);
    lemma_le_number_bound(digits);
    lemma_le_digits_of_number(digits);
}

/// A byte string that was read stands there as it would be written.
pub proof fn lemma_parse_blob_is_written(bytes: Seq<u8>, at: int)
    requires
        parse_blob(bytes, at) is Some,
    ensures
        ({
            let (raw, next) = parse_blob(bytes, at)->0;
            &&& 0 <= at <= next <= bytes.len()
            &&& blob_fits(raw)
            &&& bytes.subrange(at, next) == blob_wire(raw)
        }),
{
    let (raw, next) = parse_blob(bytes, at)->0;
    lemma_parse_number_is_written(bytes, at, LEN_WIDTH as nat);
    assert(bytes.subrange(at, next) =~= bytes.subrange(at, at + LEN_WIDTH) + raw);
}

/// An identifier that was read stands there as it would be written.
pub proof fn lemma_parse_id_is_written(bytes: Seq<u8>, at: int)
    requires
        parse_id(bytes, at) is Some,
    ensures
        ({
            let (id, next) = parse_id(bytes, at)->0;
            &&& 0 <= at <= next <= bytes.len()
            &&& bytes.subrange(at, next) == id_wire(id)
        }),
{
    let (raw, next) = parse_blob(bytes, at)->0;
    lemma_parse_blob_is_written(bytes, at);
    lemma_le_number_bound(raw);
    lemma_le_digits_of_number(raw);
    lemma_le_max_values();
}

/// A text that was read stands there as it would be written.
pub proof fn lemma_parse_text_is_written(bytes: Seq<u8>, at: int)
    requires
        parse_text(bytes, at) is Some,
    ensures
        ({
            let (text, next) = parse_text(bytes, at)->0;
            &&& 0 <= at <= next <= bytes.len()
            &&& text_fits(text)
            &&& bytes.subrange(at, next) == text_wire(text)
        }),
{
    let (raw, next) = parse_blob(bytes, at)->0;
    lemma_parse_blob_is_written(bytes, at);
    decode_utf8_encode_utf8(raw);
}

/// A port number that was read stands there as it would be written.
pub proof fn lemma_parse_port_is_written(bytes: Seq<u8>, at: int)
    requires
        parse_port(bytes, at) is Some,
    ensures
        ({
            let (port, next) = parse_port(bytes, at)->0;
            &&& 0 <= at <= next <= bytes.len()
            &&& bytes.subrange(at, next) == port_wire(port)
        }),
{
    lemma_parse_number_is_written(bytes, at, PORT_WIDTH as nat);
    lemma_le_max_values();
}

/// Reading a handshake record and writing it again gives the bytes that were
/// read: the reader accepts nothing but what the writer writes.
pub proof fn lemma_handshake_read_is_written(bytes: Seq<u8>)
    requires
        parse_handshake(bytes) is Some,
    ensures
        ({
            let info = parse_handshake(bytes)->0;
            &&& text_fits(info.nickname)
            &&& handshake_wire(info).len() <= bytes.len()
            &&& bytes.subrange(0, handshake_wire(info).len() as int) == handshake_wire(info)
        }),
{
    let info = parse_handshake(bytes)->0;
    let (id, after_id) = parse_id(bytes, 0)->0;
    let (nickname, after_nick) = parse_text(bytes, after_id)->0;
    let (port, end) = parse_port(bytes, after_nick)->0;
    lemma_parse_id_is_written(bytes, 0);
    lemma_parse_text_is_written(bytes, after_id);
    lemma_parse_port_is_written(bytes, after_nick);
    assert(bytes.subrange(0, end) =~= bytes.subrange(0, after_id) + bytes.subrange(
        after_id,
        after_nick,
    ) + bytes.subrange(after_nick, end));
}

/// Appends a length-prefixed byte string.
pub fn put_blob(out: &mut Vec<u8>, raw: &[u8])
    ensures
        final(out)@ == old(out)@ + blob_wire(raw@),
        blob_fits(raw@),
{
    let n: usize = raw.len();
    let ghost start = out@;
    put_le(out, n as u128, LEN_WIDTH);
    let ghost prefixed = out@;
    let mut k: usize = 0;
    while k < n
        invariant
            k <= n,
            n == raw@.len(),
            out@ == prefixed + raw@.subrange(0, k as int),
        decreases n - k,
    {
        out.push(raw[k]);
        k = k + 1;
        proof {
            assert(out@ =~= prefixed + raw@.subrange(0, k as int));
        }
    }
    proof {
        lemma_le_max_values();
        assert(raw@.subrange(0, n as int) =~= raw@);
        assert(out@ =~= start + blob_wire(raw@));
    }
}

/// Appends an identifier.
pub fn put_id(out: &mut Vec<u8>, id: PeerId)
    ensures
        final(out)@ == old(out)@ + id_wire(id),
{
    let ghost start = out@;
    put_le(out, ID_WIDTH as u128, LEN_WIDTH);
    put_le(out, id, ID_WIDTH);
    proof {
        lemma_le_digits_len(id as nat, ID_WIDTH as nat);
        assert(out@ =~= start + id_wire(id));
    }
}

/// Appends a text.
pub fn put_text(out: &mut Vec<u8>, text: &str)
    ensures
        final(out)@ == old(out)@ + text_wire(text@),
        text_fits(text@),
{
    put_blob(out, text.as_bytes());
}

/// Appends a port number.
pub fn put_port(out: &mut Vec<u8>, port: u16)
    ensures
        final(out)@ == old(out)@ + port_wire(port),
{
    put_le(out, port as u128, PORT_WIDTH);
}

/// `String::from_utf8`: it accepts exactly the well-formed UTF-8 byte strings,
/// and the string it hands back holds the bytes it was given.
#[verifier::external_body]
fn string_from_utf8(raw: Vec<u8>) -> (text: Option<String>)
    ensures
        text is Some <==> valid_utf8(raw@),
        text is Some ==> encode_utf8(text->0@) == raw@,
{
    String::from_utf8(raw).ok()
}

/// Reads `width` digits at `at`.
pub fn take_number(bytes: &[u8], at: usize, width: usize) -> (r: Option<(u128, usize)>)
    requires
        width <= 16,
    ensures
        match parse_number(bytes@, at as int, width as nat) {
            Some((v, next)) => r matches Some(got) && got.0 == v && got.1 == next
                && v <= le_max(width as nat),
            None => r is None,
        },
{
    let total: usize = bytes.len();
    if width <= total && at <= total - width {
        let v: u128 = read_le(bytes, at, width);
        Some((v, at + width))
    } else {
        None
    }
}

/// Reads a length-prefixed byte string at `at`: where its payload starts and
/// where it ends.
pub fn take_blob(bytes: &[u8], at: usize) -> (r: Option<(usize, usize)>)
    ensures
        match parse_blob(bytes@, at as int) {
            Some((raw, next)) => r matches Some(got) && got.0 == next - raw.len() && got.1 == next
                && raw == bytes@.subrange(got.0 as int, got.1 as int),
            None => r is None,
        },
{
    let total: usize = bytes.len();
    match take_number(bytes, at, LEN_WIDTH) {
        Some((len, start)) => {
            if len <= (total - start) as u128 {
                let n: usize = len as usize;
                Some((start, start + n))
            } else {
                None
            }
        },
        None => None,
    }
}

/// Reads an identifier at `at`.
pub fn take_id(bytes: &[u8], at: usize) -> (r: Option<(PeerId, usize)>)
    ensures
        match parse_id(bytes@, at as int) {
            Some((id, next)) => r == Some((id, next as usize)) && next <= bytes@.len(),
            None => r is None,
        },
{
    match take_blob(bytes, at) {
        Some((start, end)) => {
            if end - start == ID_WIDTH {
                let id: u128 = read_le(bytes, start, ID_WIDTH);
                proof {
                    lemma_le_max_values();
                }
                Some((id, end))
            } else {
                None
            }
        },
        None => None,
    }
}

/// Reads a text at `at`.
pub fn take_text(bytes: &[u8], at: usize) -> (r: Option<(String, usize)>)
    ensures
        match parse_text(bytes@, at as int) {
            Some((text, next)) => r matches Some(got) && got.0@ == text && got.1 == next
                && next <= bytes@.len(),
            None => r is None,
        },
{
    match take_blob(bytes, at) {
        Some((start, end)) => {
            let raw: Vec<u8> = slice_to_vec(slice_subrange(bytes, start, end));
            match string_from_utf8(raw) {
                Some(text) => {
                    proof {
                        encode_utf8_decode_utf8(text@);
                    }
                    Some((text, end))
                },
                None => None,
            }
        },
        None => None,
    }
}

/// Reads a port number at `at`.
pub fn take_port(bytes: &[u8], at: usize) -> (r: Option<(u16, usize)>)
    ensures
        match parse_port(bytes@, at as int) {
            Some((port, next)) => r == Some((port, next as usize)) && next <= bytes@.len(),
            None => r is None,
        },
{
    match take_number(bytes, at, PORT_WIDTH) {
        Some((v, next)) => {
            proof {
                lemma_le_max_values();
            }
            Some((v as u16, next))
        },
        None => None,
    }
}

impl Clone for PeerInfo {
    /// A copy with the same content.
    fn clone(&self) -> (copy: PeerInfo)
        ensures
            copy@ == self@,
    {
        PeerInfo { id: self.id, nickname: self.nickname.clone(), udp_port: self.udp_port }
    }
}

impl PeerInfo {
    /// The record as it goes on the control channel.
    pub fn to_bytes(&self) -> (out: Vec<u8>)
        ensures
            out@ == handshake_wire(self@),
            text_fits(self.nickname@),
    {
        let mut out: Vec<u8> = Vec::new();
        put_id(&mut out, self.id);
        put_text(&mut out, self.nickname.as_str());
        put_port(&mut out, self.udp_port);
        proof {
            assert(out@ =~= handshake_wire(self@));
        }
        out
    }

    /// Reads a record from the front of `bytes`; `None` when the bytes do not
    /// start with one.
    pub fn from_bytes(bytes: &[u8]) -> (r: Option<PeerInfo>)
        ensures
            match parse_handshake(bytes@) {
                Some(info) => r is Some && r->0@ == info,
                None => r is None,
            },
    {
        match take_id(bytes, 0) {
            Some((id, after_id)) => match take_text(bytes, after_id) {
                Some((nickname, after_nick)) => match take_port(bytes, after_nick) {
                    Some((udp_port, _)) => Some(PeerInfo { id, nickname, udp_port }),
                    None => None,
                },
                None => None,
            },
            None => None,
        }
    }
}

} // verus!
