//! Binary packet framing (RFC 4253 section 6): a packet on the wire is
//! `packet_length:u32 || padding_length:u8 || payload || padding`, where
//! `packet_length` counts everything after itself and the framed whole is a
//! multiple of the alignment.

use vstd::prelude::*;

use crate::codec;
use crate::codec::{be32, u32_from_be};
use crate::error::ConnectionError;
use crate::message::MessageType;

verus! {

/// The framing alignment: a multiple of every cipher block size in use
/// (8 for the plaintext phase, 16 for AES).
pub const PACKET_ALIGN: usize = 32;

/// The upper bound on `packet_length`, against resource exhaustion.
pub const MAX_PACKET_LENGTH: usize = 35000;

/// The upper bound this library places on a payload, chosen so that every
/// framed payload stays under `MAX_PACKET_LENGTH`.
pub const MAX_PAYLOAD_LENGTH: usize = 33000;

/// A packet: either a builder holding a payload (whose first byte is the
/// message type), or the raw framed form together with its payload length.
pub enum Packet {
    Raw(Vec<u8>, usize),
    Payload(Vec<u8>),
}

/// The padding length for a payload: what lifts `payload || padding` plus
/// the five header bytes to a multiple of the alignment, and is at least 4.
pub open spec fn spec_padding_len(payload_len: int) -> int {
    let r = 32 - ((payload_len + 5) % 32);
    if r < 4 {
        r + 32
    } else {
        r
    }
}

/// The framed bytes of a payload: length, padding length, payload, zero
/// padding. The padding is zero-filled in both transport phases; no peer
/// may rely on padding contents, and pinning them keeps framing exact.
pub open spec fn spec_frame(payload: Seq<u8>) -> Seq<u8> {
    let pad = spec_padding_len(payload.len() as int);
    be32((payload.len() + 1 + pad) as u32) + seq![pad as u8] + payload + Seq::new(
        pad as nat,
        |i: int| 0u8,
    )
}

impl Packet {
    /// Well-formed: a builder payload begins with the message type byte and
    /// fits the frame bound; a raw form is consistent with its header.
    pub open spec fn wf(self) -> bool {
        match self {
            Packet::Payload(p) => 1 <= p.len() <= MAX_PAYLOAD_LENGTH,
            Packet::Raw(data, payload_len) => {
                &&& data.len() >= 6
                &&& data.len() <= MAX_PACKET_LENGTH + 4
                &&& u32_from_be(data@.subrange(0, 4)) == data.len() - 4
                &&& 1 <= payload_len
                &&& payload_len + data[4] + 1 == data.len() - 4
            },
        }
    }

    /// The payload a packet carries.
    pub open spec fn spec_payload(self) -> Seq<u8> {
        match self {
            Packet::Payload(p) => p@,
            Packet::Raw(data, payload_len) => data@.subrange(5, 5 + payload_len as int),
        }
    }

    /// The bytes backing a packet: the payload of a builder, the framed
    /// bytes of a raw form.
    pub open spec fn spec_data(self) -> Seq<u8> {
        match self {
            Packet::Payload(p) => p@,
            Packet::Raw(data, _) => data@,
        }
    }

    /// The message type: the first payload byte.
    pub open spec fn spec_msg_type(self) -> MessageType {
        MessageType::spec_from_u8(self.spec_payload()[0])
    }

    /// A fresh builder holding only the message type byte.
    pub fn new(msg_type: MessageType) -> (r: Packet)
        ensures
            r.wf(),
            r.spec_payload() == seq![msg_type.spec_to_u8()],
            r is Payload,
    {
        let mut p: Vec<u8> = Vec::new();
        p.push(msg_type.to_u8());
        assert(p@ =~= seq![msg_type.spec_to_u8()]);
        Packet::Payload(p)
    }

    /// The message type of this packet.
    pub fn msg_type(&self) -> (r: MessageType)
        requires
            self.wf(),
        ensures
            r == self.spec_msg_type(),
            r.wf(),
    {
        match self {
            Packet::Raw(data, _) => MessageType::from_u8(data[5]),
            Packet::Payload(p) => MessageType::from_u8(p[0]),
        }
    }

    /// The payload, with the framing stripped.
    pub fn payload(self) -> (r: Vec<u8>)
        requires
            self.wf(),
        ensures
            r@ == self.spec_payload(),
    {
        match self {
            Packet::Raw(data, payload_len) => {
                match codec::read_raw_bytes(data.as_slice(), 5, payload_len) {
                    Some((v, _)) => v,
                    None => Vec::new(),
                }
            },
            Packet::Payload(p) => p,
        }
    }

    /// A copy of the payload, with the framing stripped.
    pub fn payload_of(&self) -> (r: Vec<u8>)
        requires
            self.wf(),
        ensures
            r@ == self.spec_payload(),
    {
        match self {
            Packet::Raw(data, payload_len) => {
                match codec::read_raw_bytes(data.as_slice(), 5, *payload_len) {
                    Some((v, _)) => v,
                    None => Vec::new(),
                }
            },
            Packet::Payload(p) => {
                match codec::read_raw_bytes(p.as_slice(), 0, p.len()) {
                    Some((v, _)) => {
                        assert(p@.subrange(0, p@.len() as int) =~= p@);
                        v
                    },
                    None => Vec::new(),
                }
            },
        }
    }

    /// The bytes backing this packet.
    pub fn data(&self) -> (r: &Vec<u8>)
        ensures
            r@ == self.spec_data(),
    {
        match self {
            Packet::Raw(data, _) => data,
            Packet::Payload(p) => p,
        }
    }

    /// The payload length.
    pub fn payload_len(&self) -> (r: usize)
        requires
            self.wf(),
        ensures
            r == self.spec_payload().len(),
    {
        match self {
            Packet::Raw(_, payload_len) => *payload_len,
            Packet::Payload(p) => p.len(),
        }
    }

    /// The padding length a payload of this length is framed with.
    pub fn padding_len(&self) -> (r: usize)
        requires
            self.wf(),
        ensures
            r == spec_padding_len(self.spec_payload().len() as int),
    {
        let align: usize = PACKET_ALIGN;
        let padding_len: usize = align - ((self.payload_len() + 5) % align);
        if padding_len < 4 {
            padding_len + align
        } else {
            padding_len
        }
    }

    /// Frame a builder; a raw packet passes through unchanged.
    pub fn to_raw(self) -> (r: Packet)
        requires
            self.wf(),
        ensures
            r.wf(),
            r is Raw,
            r.spec_payload() == self.spec_payload(),
            r.spec_data() == if self is Raw {
                self.spec_data()
            } else {
                spec_frame(self.spec_payload())
            },
    {
        match self {
            Packet::Raw(_, _) => self,
            Packet::Payload(p) => {
                let pad = Packet::Payload(p.clone()).padding_len();
                proof {
                    lemma_padding_len_bounds(p@.len() as int);
                }
                let packet_len = p.len() + pad + 1;
                let mut buf: Vec<u8> = Vec::new();
                codec::write_uint32(&mut buf, packet_len as u32);
                codec::write_byte(&mut buf, pad as u8);
                codec::write_raw_bytes(&mut buf, p.as_slice());
                let mut i: usize = 0;
                let ghost before = buf@;
                while i < pad
                    invariant
                        i <= pad,
                        buf@ == before + Seq::new(i as nat, |k: int| 0u8),
                    decreases pad - i,
                {
                    buf.push(0);
                    assert(buf@ =~= before + Seq::new((i + 1) as nat, |k: int| 0u8));
                    i = i + 1;
                }
                proof {
                    assert(buf@ =~= spec_frame(p@));
                    lemma_u32_from_be32_inverse(packet_len as u32);
                    assert(buf@.subrange(0, 4) =~= be32(packet_len as u32));
                    assert(buf@.subrange(5, 5 + p@.len() as int) =~= p@);
                    assert(buf@[4] == pad as u8);
                }
                Packet::Raw(buf, p.len())
            },
        }
    }

    /// Parse a complete framed packet. The whole buffer must be one frame:
    /// `packet_length` must match the buffer, stay within the length bound
    /// (violations are integrity errors), and leave at least one payload
    /// byte after the padding.
    pub fn read_from(data: Vec<u8>) -> (r: Result<Packet, ConnectionError>)
        ensures
            match r {
                Ok(p) => {
                    &&& p.wf()
                    &&& p is Raw
                    &&& p.spec_data() == data@
                    &&& data@.len() >= 6
                    &&& u32_from_be(data@.subrange(0, 4)) == data@.len() - 4
                    &&& data@.len() <= MAX_PACKET_LENGTH + 4
                    &&& p.spec_payload() == data@.subrange(
                        5,
                        data@.len() - data@[4],
                    )
                },
                Err(e) => {
                    &&& (e == ConnectionError::ProtocolError
                        || e == ConnectionError::IntegrityError)
                    &&& (data@.len() < 6 || u32_from_be(data@.subrange(0, 4)) != data@.len() - 4
                        || data@.len() > MAX_PACKET_LENGTH + 4 || data@[4] + 6 > data@.len())
                },
            },
    {
        if data.len() < 6 {
            return Err(ConnectionError::ProtocolError);
        }
        if data.len() > MAX_PACKET_LENGTH + 4 {
            return Err(ConnectionError::IntegrityError);
        }
        let packet_len = match codec::read_uint32(data.as_slice(), 0) {
            Some((v, _)) => v as usize,
            None => { return Err(ConnectionError::ProtocolError) },
        };
        if packet_len != data.len() - 4 {
            return Err(ConnectionError::IntegrityError);
        }
        let padding_len = data[4] as usize;
        if padding_len + 6 > data.len() {
            return Err(ConnectionError::ProtocolError);
        }
        let payload_len = packet_len - padding_len - 1;
        Ok(Packet::Raw(data, payload_len))
    }
}

/// The packet length a frame header announces, bounds-checked: how many
/// bytes follow the four-byte length field. Lengths beyond the bound (or
/// too short for a packet at all) violate the length rule.
pub fn frame_body_len(header: &[u8]) -> (r: Result<u32, ConnectionError>)
    requires
        header@.len() >= 4,
    ensures
        match r {
            Ok(v) => v == u32_from_be(header@.subrange(0, 4)) && 12 <= v <= MAX_PACKET_LENGTH,
            Err(e) => e == ConnectionError::IntegrityError && !(12 <= u32_from_be(
                header@.subrange(0, 4),
            ) <= MAX_PACKET_LENGTH),
        },
{
    let v = match codec::read_uint32(header, 0) {
        Some((v, _)) => v,
        None => { return Err(ConnectionError::IntegrityError) },
    };
    if v < 12 || v > MAX_PACKET_LENGTH as u32 {
        return Err(ConnectionError::IntegrityError);
    }
    Ok(v)
}

/// The u32 read back from the big-endian bytes of `v` is `v`; a convenience
/// alias of the codec law for use at the framing layer.
proof fn lemma_u32_from_be32_inverse(v: u32)
    ensures
        u32_from_be(be32(v)) == v,
{
    codec::lemma_u32_from_be32(v);
}

/// Padding is always between 4 and 35 bytes, and lifts the framed length to
/// a multiple of the alignment.
pub proof fn lemma_padding_len_bounds(payload_len: int)
    requires
        payload_len >= 0,
    ensures
        4 <= spec_padding_len(payload_len) <= 35,
        (payload_len + 5 + spec_padding_len(payload_len)) % 32 == 0,
{
    let m = (payload_len + 5) % 32;
    vstd::arithmetic::div_mod::lemma_mod_pos_bound(payload_len + 5, 32);
    vstd::arithmetic::div_mod::lemma_fundamental_div_mod(payload_len + 5, 32);
    let q = (payload_len + 5) / 32;
    let pad = spec_padding_len(payload_len);
    if 32 - m < 4 {
        assert(payload_len + 5 + pad == 32 * (q + 2));
        vstd::arithmetic::div_mod::lemma_mod_multiples_basic(q + 2, 32);
    } else {
        assert(payload_len + 5 + pad == 32 * (q + 1));
        vstd::arithmetic::div_mod::lemma_mod_multiples_basic(q + 1, 32);
    }
}

/// A framed payload is a whole number of alignment blocks, and its padding
/// is within the legal range: the framing half of the codec round-trip law.
pub proof fn lemma_frame_alignment(payload: Seq<u8>)
    requires
        1 <= payload.len() <= MAX_PAYLOAD_LENGTH,
    ensures
        spec_frame(payload).len() % 32 == 0,
        4 <= spec_padding_len(payload.len() as int) <= 255,
        spec_frame(payload).len() <= MAX_PACKET_LENGTH + 4,
{
    lemma_padding_len_bounds(payload.len() as int);
    let pad = spec_padding_len(payload.len() as int);
    assert(spec_frame(payload).len() == payload.len() + 5 + pad);
}

} // verus!
