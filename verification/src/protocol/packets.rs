//! Framed control packets of the SoftEther protocol: a magic number, a packet
//! type, a sequence number and a payload.

use vstd::prelude::*;
use vstd::utf8::encode_utf8;
use crate::error::{Result, VpnError};
use crate::protocol::constants::MAGIC_NUMBER;
use crate::wire::{be32, be32_value, copy_range, get_u32, lemma_be32_roundtrip, put_slice, put_u32};

verus! {

/// Packet types in the SoftEther protocol.
#[derive(Debug, Clone, Copy, PartialEq, Eq, Structural)]
pub enum PacketType {
    Handshake,
    Auth,
    Data,
    Keepalive,
    Disconnect,
}

/// The byte that stands for a packet type.
pub open spec fn packet_type_code(t: PacketType) -> u8 {
    match t {
        PacketType::Handshake => 0x01,
        PacketType::Auth => 0x02,
        PacketType::Data => 0x03,
        PacketType::Keepalive => 0x04,
        PacketType::Disconnect => 0x05,
    }
}

/// The packet type that a byte stands for, if any.
pub open spec fn packet_type_from_code(b: u8) -> Option<PacketType> {
    if b == 0x01 {
        Some(PacketType::Handshake)
    } else if b == 0x02 {
        Some(PacketType::Auth)
    } else if b == 0x03 {
        Some(PacketType::Data)
    } else if b == 0x04 {
        Some(PacketType::Keepalive)
    } else if b == 0x05 {
        Some(PacketType::Disconnect)
    } else {
        None
    }
}

impl PacketType {
    /// The byte of this packet type.
    pub fn code(&self) -> (r: u8)
        ensures
            r == packet_type_code(*self),
    {
        match self {
            PacketType::Handshake => 0x01,
            PacketType::Auth => 0x02,
            PacketType::Data => 0x03,
            PacketType::Keepalive => 0x04,
            PacketType::Disconnect => 0x05,
        }
    }

    /// The packet type of a byte; an unknown byte is a protocol error.
    pub fn from_code(value: u8) -> (r: Result<PacketType>)
        ensures
            r is Ok <==> packet_type_from_code(value) is Some,
            r matches Ok(t) ==> packet_type_from_code(value) == Some(t),
            r matches Err(e) ==> e is Protocol,
    {
        if value == 0x01 {
            Ok(PacketType::Handshake)
        } else if value == 0x02 {
            Ok(PacketType::Auth)
        } else if value == 0x03 {
            Ok(PacketType::Data)
        } else if value == 0x04 {
            Ok(PacketType::Keepalive)
        } else if value == 0x05 {
            Ok(PacketType::Disconnect)
        } else {
            Err(VpnError::Protocol("Unknown packet type".to_owned()))
        }
    }
}

impl TryFrom<u8> for PacketType {
    type Error = VpnError;

    /// Same as [`PacketType::from_code`].
    fn try_from(value: u8) -> (r: Result<Self>)
        ensures
            r is Ok <==> packet_type_from_code(value) is Some,
            r matches Ok(t) ==> packet_type_from_code(value) == Some(t),
            r matches Err(e) ==> e is Protocol,
    {
        PacketType::from_code(value)
    }
}

impl vstd::std_specs::convert::TryFromSpecImpl<u8> for PacketType {
    /// The error values carry text that no spec value pins down, so the
    /// generic law is not claimed; `try_from` states its result itself.
    open spec fn obeys_try_from_spec() -> bool {
        false
    }

    open spec fn try_from_spec(v: u8) -> std::result::Result<Self, VpnError> {
        match packet_type_from_code(v) {
            Some(t) => Ok(t),
            None => Err(VpnError::Other(vstd::pervasive::arbitrary())),
        }
    }
}

/// SoftEther protocol packet.
#[derive(Debug, Clone)]
pub struct Packet {
    pub packet_type: PacketType,
    pub sequence: u32,
    pub payload: Vec<u8>,
}

/// Length of the packet header: magic, type, sequence.
pub const PACKET_HEADER_LEN: usize = 9;

/// A packet on the wire.
pub open spec fn packet_bytes(t: PacketType, sequence: u32, payload: Seq<u8>) -> Seq<u8> {
    be32(MAGIC_NUMBER) + seq![packet_type_code(t)] + be32(sequence) + payload
}

/// The packet that bytes hold: at least nine bytes, the magic number, a known
/// type byte, the sequence, and the rest as payload.
pub open spec fn parse_packet(data: Seq<u8>) -> Option<(PacketType, u32, Seq<u8>)> {
    if data.len() < 9 {
        None
    } else if be32_value(data.subrange(0, 4)) != MAGIC_NUMBER {
        None
    } else {
        match packet_type_from_code(data[4]) {
            None => None,
            Some(t) => Some((t, be32_value(data.subrange(5, 9)), data.subrange(9, data.len() as int))),
        }
    }
}

impl Packet {
    /// Create a new packet.
    pub fn new(packet_type: PacketType, sequence: u32, payload: Vec<u8>) -> (r: Self)
        ensures
            r.packet_type == packet_type,
            r.sequence == sequence,
            r.payload@ == payload@,
    {
        Self { packet_type, sequence, payload }
    }

    /// Serialize the packet.
    pub fn serialize(&self) -> (r: Result<Vec<u8>>)
        ensures
            r matches Ok(b) && b@ == packet_bytes(self.packet_type, self.sequence, self.payload@),
    {
        let mut buf: Vec<u8> = Vec::new();
        put_u32(&mut buf, MAGIC_NUMBER);
        buf.push(self.packet_type.code());
        put_u32(&mut buf, self.sequence);
        put_slice(&mut buf, self.payload.as_slice());
        assert(buf@ =~= packet_bytes(self.packet_type, self.sequence, self.payload@));
        Ok(buf)
    }

    /// Deserialize a packet; the data after the header is the payload.
    pub fn deserialize(data: Vec<u8>) -> (r: Result<Self>)
        ensures
            r is Ok <==> parse_packet(data@) is Some,
            r matches Ok(p) ==> parse_packet(data@) == Some((p.packet_type, p.sequence, p.payload@)),
            r matches Err(e) ==> e is Protocol,
    {
        let d = data.as_slice();
        if d.len() < 9 {
            return Err(VpnError::Protocol("Packet too short".to_owned()));
        }
        let magic = get_u32(d, 0);
        if magic != MAGIC_NUMBER {
            return Err(VpnError::Protocol("Invalid magic number".to_owned()));
        }
        let packet_type = PacketType::from_code(d[4])?;
        let sequence = get_u32(d, 5);
        let payload = copy_range(d, 9, d.len());
        Ok(Self { packet_type, sequence, payload })
    }

    /// Packet size: the nine header bytes plus the payload.
    pub fn size(&self) -> (r: usize)
        requires
            self.payload@.len() + 9 <= usize::MAX,
        ensures
            r == 9 + self.payload@.len(),
    {
        9 + self.payload.len()
    }
}

/// Reading back a written packet gives the packet.
pub proof fn lemma_packet_roundtrip(t: PacketType, sequence: u32, payload: Seq<u8>)
    ensures
        parse_packet(packet_bytes(t, sequence, payload)) == Some((t, sequence, payload)),
{
    let b = packet_bytes(t, sequence, payload);
    lemma_be32_roundtrip(MAGIC_NUMBER);
    lemma_be32_roundtrip(sequence);
    assert(b.subrange(0, 4) =~= be32(MAGIC_NUMBER));
    assert(b.subrange(5, 9) =~= be32(sequence));
    assert(b.subrange(9, b.len() as int) =~= payload);
}

/// The big-endian length prefix written before a string: its byte length, or
/// zero when that does not fit in 32 bits.
pub open spec fn length_prefix(n: nat) -> Seq<u8> {
    if n <= u32::MAX {
        be32(n as u32)
    } else {
        be32(0)
    }
}

fn put_len_prefixed(buf: &mut Vec<u8>, s: &str)
    ensures
        final(buf)@ == old(buf)@ + length_prefix(encode_utf8(s@).len()) + encode_utf8(s@),
{
    let b = s.as_bytes();
    let n: u32 = if b.len() <= u32::MAX as usize {
        b.len() as u32
    } else {
        0
    };
    put_u32(buf, n);
    put_slice(buf, b);
    assert(buf@ =~= old(buf)@ + length_prefix(encode_utf8(s@).len()) + encode_utf8(s@));
}

/// Packet builder for creating specific packet types.
pub struct PacketBuilder;

impl PacketBuilder {
    /// Handshake packet: version, then the length-prefixed client name.
    pub fn handshake(sequence: u32, version: u32, client_name: &str) -> (r: Result<Packet>)
        ensures
            r matches Ok(p) && p.packet_type == PacketType::Handshake && p.sequence == sequence
                && p.payload@ == be32(version) + length_prefix(encode_utf8(client_name@).len())
                + encode_utf8(client_name@),
    {
        let mut payload: Vec<u8> = Vec::new();
        put_u32(&mut payload, version);
        put_len_prefixed(&mut payload, client_name);
        assert(payload@ =~= be32(version) + length_prefix(encode_utf8(client_name@).len())
            + encode_utf8(client_name@));
        Ok(Packet::new(PacketType::Handshake, sequence, payload))
    }

    /// Authentication packet: length-prefixed user name, then length-prefixed
    /// password.
    pub fn auth(sequence: u32, username: &str, password: &str) -> (r: Result<Packet>)
        ensures
            r matches Ok(p) && p.packet_type == PacketType::Auth && p.sequence == sequence
                && p.payload@ == length_prefix(encode_utf8(username@).len()) + encode_utf8(username@)
                + length_prefix(encode_utf8(password@).len()) + encode_utf8(password@),
    {
        let mut payload: Vec<u8> = Vec::new();
        put_len_prefixed(&mut payload, username);
        put_len_prefixed(&mut payload, password);
        assert(payload@ =~= length_prefix(encode_utf8(username@).len()) + encode_utf8(username@)
            + length_prefix(encode_utf8(password@).len()) + encode_utf8(password@));
        Ok(Packet::new(PacketType::Auth, sequence, payload))
    }

    /// Data packet carrying `data` as its payload.
    pub fn data(sequence: u32, data: Vec<u8>) -> (r: Result<Packet>)
        ensures
            r matches Ok(p) && p.packet_type == PacketType::Data && p.sequence == sequence
                && p.payload@ == data@,
    {
        Ok(Packet::new(PacketType::Data, sequence, data))
    }

    /// Keepalive packet with an empty payload.
    pub fn keepalive(sequence: u32) -> (r: Result<Packet>)
        ensures
            r matches Ok(p) && p.packet_type == PacketType::Keepalive && p.sequence == sequence
                && p.payload@ == Seq::<u8>::empty(),
    {
        Ok(Packet::new(PacketType::Keepalive, sequence, Vec::new()))
    }

    /// Disconnect packet: the length-prefixed reason.
    pub fn disconnect(sequence: u32, reason: &str) -> (r: Result<Packet>)
        ensures
            r matches Ok(p) && p.packet_type == PacketType::Disconnect && p.sequence == sequence
                && p.payload@ == length_prefix(encode_utf8(reason@).len()) + encode_utf8(reason@),
    {
        let mut payload: Vec<u8> = Vec::new();
        put_len_prefixed(&mut payload, reason);
        assert(payload@ =~= length_prefix(encode_utf8(reason@).len()) + encode_utf8(reason@));
        Ok(Packet::new(PacketType::Disconnect, sequence, payload))
    }
}

} // verus!
