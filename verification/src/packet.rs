//! The frame codec: a typed, length-delimited binary frame.
//!
//! On the wire a frame is `[tag: u8][length: u16 big-endian][payload: length bytes]`.
//! The tag values are 1 = `Data`, 2 = `DataEnd`, 3 = `Name`, 4 = `Terminate`.

use vstd::prelude::*;
use vstd::slice::slice_subrange;

verus! {

/// The kind of a frame, as carried by the one-byte tag on the wire.
#[derive(Debug, Clone, Copy, PartialEq, Eq, Structural)]
pub enum PacketType {
    Data,
    DataEnd,
    Name,
    Terminate,
}

/// The wire tag of a packet kind.
pub open spec fn tag_of(t: PacketType) -> u8 {
    match t {
        PacketType::Data => 1,
        PacketType::DataEnd => 2,
        PacketType::Name => 3,
        PacketType::Terminate => 4,
    }
}

/// Whether a byte is the tag of some packet kind.
pub open spec fn valid_tag(b: u8) -> bool {
    1 <= b <= 4
}

/// The packet kind named by a tag byte.
pub open spec fn type_of_tag(b: u8) -> PacketType
    recommends
        valid_tag(b),
{
    if b == 1 {
        PacketType::Data
    } else if b == 2 {
        PacketType::DataEnd
    } else if b == 3 {
        PacketType::Name
    } else {
        PacketType::Terminate
    }
}

/// The value of a big-endian 16-bit length field.
pub open spec fn be16(hi: u8, lo: u8) -> int {
    hi as int * 256 + lo as int
}

/// The greatest payload length a frame can carry: the length field is 16 bits.
pub const MAX_PAYLOAD: usize = 65535;

/// The exact bytes of the frame with kind `t` and the given payload.
pub open spec fn frame_bytes(t: PacketType, payload: Seq<u8>) -> Seq<u8>
    recommends
        payload.len() <= MAX_PAYLOAD,
{
    seq![tag_of(t), (payload.len() / 256) as u8, (payload.len() % 256) as u8] + payload
}

/// A well-formed frame: a known tag, and exactly as many payload bytes as the
/// length field announces.
pub open spec fn wf_frame(s: Seq<u8>) -> bool {
    &&& s.len() >= 3
    &&& valid_tag(s[0])
    &&& s.len() == 3 + be16(s[1], s[2])
}

/// The kind of a well-formed frame.
pub open spec fn frame_kind(s: Seq<u8>) -> PacketType
    recommends
        wf_frame(s),
{
    type_of_tag(s[0])
}

/// The payload of a well-formed frame: everything after the 3-byte header.
pub open spec fn frame_payload(s: Seq<u8>) -> Seq<u8>
    recommends
        wf_frame(s),
{
    s.subrange(3, s.len() as int)
}

/// Why a frame could not be encoded or decoded.
#[derive(Debug, Clone, Copy, PartialEq, Eq, Structural)]
pub enum FrameError {
    /// The payload handed to the encoder does not fit the 16-bit length field.
    PayloadTooLarge,
    /// The tag byte names no packet kind.
    UnknownFrameKind,
    /// The input ends before the frame announced by its header is complete.
    TruncatedFrame,
}

/// One frame, stored as its wire bytes.
#[derive(Debug, Clone)]
pub struct Packet {
    packet: Vec<u8>,
}

impl View for Packet {
    type V = Seq<u8>;

    closed spec fn view(&self) -> Seq<u8> {
        self.packet@
    }
}

impl PacketType {
    /// The packet kind named by a tag byte.
    pub fn from_u8(v: u8) -> (t: PacketType)
        requires
            valid_tag(v),
        ensures
            t == type_of_tag(v),
    {
        match v {
            1 => PacketType::Data,
            2 => PacketType::DataEnd,
            3 => PacketType::Name,
            _ => PacketType::Terminate,
        }
    }

    /// The wire tag of this packet kind.
    pub fn to_u8(self) -> (b: u8)
        ensures
            b == tag_of(self),
            valid_tag(b),
    {
        match self {
            PacketType::Data => 1,
            PacketType::DataEnd => 2,
            PacketType::Name => 3,
            PacketType::Terminate => 4,
        }
    }
}

impl Packet {
    /// Builds the frame with kind `t` and payload `contents`.
    pub fn new(t: PacketType, contents: &[u8]) -> (p: Packet)
        requires
            contents@.len() <= MAX_PAYLOAD,
        ensures
            p@ == frame_bytes(t, contents@),
            wf_frame(p@),
    {
        let len: usize = contents.len();
        let mut bytes: Vec<u8> = Vec::with_capacity(len + 3);
        bytes.push(t.to_u8());
        bytes.push((len / 256) as u8);
        bytes.push((len % 256) as u8);
        bytes.extend_from_slice(contents);
        let p = Packet { packet: bytes };
        proof {
            assert(p@ =~= frame_bytes(t, contents@));
            lemma_frame_round_trip(t, contents@);
        }
        p
    }

    /// The kind of this frame.
    pub fn get_type(&self) -> (t: PacketType)
        requires
            wf_frame(self@),
        ensures
            t == frame_kind(self@),
    {
        PacketType::from_u8(self.packet[0])
    }

    /// The payload length announced by this frame's header.
    pub fn get_data_length(&self) -> (len: u16)
        requires
            wf_frame(self@),
        ensures
            len as int == be16(self@[1], self@[2]),
            len as int == frame_payload(self@).len(),
    {
        self.packet[1] as u16 * 256 + self.packet[2] as u16
    }

    /// The payload of this frame.
    pub fn get_data_slice(&self) -> (data: &[u8])
        requires
            wf_frame(self@),
        ensures
            data@ == frame_payload(self@),
    {
        slice_subrange(self.packet.as_slice(), 3, self.packet.len())
    }

    /// The full wire bytes of this frame, header included.
    pub fn as_bytes(&self) -> (bytes: &[u8])
        ensures
            bytes@ == self@,
    {
        self.packet.as_slice()
    }
}

/// Encodes a frame, rejecting a payload that does not fit the length field.
pub fn encode(t: PacketType, payload: &[u8]) -> (r: Result<Packet, FrameError>)
    ensures
        r is Ok <==> payload@.len() <= MAX_PAYLOAD,
        r is Ok ==> r->Ok_0@ == frame_bytes(t, payload@),
        r is Err ==> r->Err_0 == FrameError::PayloadTooLarge,
{
    if payload.len() > MAX_PAYLOAD {
        Err(FrameError::PayloadTooLarge)
    } else {
        Ok(Packet::new(t, payload))
    }
}

/// Reads a frame header as it comes off a stream: the tag byte and the two
/// big-endian length bytes. Tells the caller which kind follows and how many
/// payload bytes to read, or that the tag names no packet kind.
pub fn parse_header(tag: u8, len_hi: u8, len_lo: u8) -> (r: Result<(PacketType, u16), FrameError>)
    ensures
        r is Ok <==> valid_tag(tag),
        r is Ok ==> r->Ok_0.0 == type_of_tag(tag) && r->Ok_0.1 as int == be16(len_hi, len_lo),
        r is Err ==> r->Err_0 == FrameError::UnknownFrameKind,
{
    if 1 <= tag && tag <= 4 {
        Ok((PacketType::from_u8(tag), len_hi as u16 * 256 + len_lo as u16))
    } else {
        Err(FrameError::UnknownFrameKind)
    }
}

/// Whether `s` begins with one complete, well-formed frame.
pub open spec fn decode_ok(s: Seq<u8>) -> bool {
    &&& s.len() >= 3
    &&& valid_tag(s[0])
    &&& s.len() >= 3 + be16(s[1], s[2])
}

/// The error `decode` reports on an input that holds no complete frame:
/// an unrecognised tag is reported as such; everything else is a short read.
pub open spec fn decode_err(s: Seq<u8>) -> FrameError {
    if s.len() >= 1 && !valid_tag(s[0]) {
        FrameError::UnknownFrameKind
    } else {
        FrameError::TruncatedFrame
    }
}

/// Decodes the frame at the front of `bytes`. On success returns the frame
/// and the number of bytes it occupied.
pub fn decode(bytes: &[u8]) -> (r: Result<(Packet, usize), FrameError>)
    ensures
        r is Ok <==> decode_ok(bytes@),
        r is Ok ==> {
            let (p, n) = r->Ok_0;
            &&& n == 3 + be16(bytes@[1], bytes@[2])
            &&& n <= bytes@.len()
            &&& p@ == bytes@.subrange(0, n as int)
            &&& wf_frame(p@)
        },
        r is Err ==> r->Err_0 == decode_err(bytes@),
{
    if bytes.len() < 1 {
        return Err(FrameError::TruncatedFrame);
    }
    let tag: u8 = bytes[0];
    if !(1 <= tag && tag <= 4) {
        return Err(FrameError::UnknownFrameKind);
    }
    if bytes.len() < 3 {
        return Err(FrameError::TruncatedFrame);
    }
    let len: usize = bytes[1] as usize * 256 + bytes[2] as usize;
    if bytes.len() < 3 + len {
        return Err(FrameError::TruncatedFrame);
    }
    let t = PacketType::from_u8(tag);
    let payload: &[u8] = slice_subrange(bytes, 3, 3 + len);
    let p = Packet::new(t, payload);
    proof {
        assert(p@ =~= bytes@.subrange(0, 3 + len));
    }
    Ok((p, 3 + len))
}

/// Round-trip law: the bytes of the frame built from any kind and any payload
/// that fits the length field form a well-formed frame, decode as one complete
/// frame, and give back exactly that kind and that payload.
pub proof fn lemma_frame_round_trip(t: PacketType, payload: Seq<u8>)
    requires
        payload.len() <= MAX_PAYLOAD,
    ensures
        wf_frame(frame_bytes(t, payload)),
        decode_ok(frame_bytes(t, payload)),
        frame_bytes(t, payload).len() == 3 + payload.len(),
        frame_kind(frame_bytes(t, payload)) == t,
        frame_payload(frame_bytes(t, payload)) == payload,
{
    let s = frame_bytes(t, payload);
    let len = payload.len() as int;
    assert(be16(s[1], s[2]) == (len / 256) * 256 + len % 256);
    vstd::arithmetic::div_mod::lemma_fundamental_div_mod(len, 256);
    assert(frame_payload(s) =~= payload);
}

} // verus!
