//! Framing of packets inside the VPN tunnel: a ten-byte header (version,
//! type, session id, payload size) before each payload.

use vstd::prelude::*;
use crate::error::{Result, VpnError};
use crate::net::IpAddress;
use crate::wire::{be32, be32_value, copy_range, get_u32, lemma_be32_roundtrip, put_slice, put_u32};

verus! {

/// Packet header structure.
#[derive(Debug, Clone, Copy, PartialEq, Eq, Structural)]
pub struct PacketHeader {
    /// Protocol version
    pub version: u8,
    /// Type of packet
    pub packet_type: u8,
    /// Session identifier
    pub session_id: u32,
    /// Size of the payload data
    pub payload_size: u32,
}

/// Header length in bytes.
pub const HEADER_SIZE: usize = 10;

/// Protocol version of the framing.
pub const VERSION: u8 = 1;

/// Regular data packet.
pub const TYPE_DATA: u8 = 0;

/// Control packet.
pub const TYPE_CONTROL: u8 = 1;

/// Acknowledgment packet.
pub const TYPE_ACK: u8 = 2;

/// Keep-alive packet.
pub const TYPE_KEEPALIVE: u8 = 3;

/// A header on the wire.
pub open spec fn header_bytes(h: PacketHeader) -> Seq<u8> {
    seq![h.version, h.packet_type] + be32(h.session_id) + be32(h.payload_size)
}

/// The header held by the first ten bytes.
pub open spec fn header_of(b: Seq<u8>) -> PacketHeader {
    PacketHeader {
        version: b[0],
        packet_type: b[1],
        session_id: be32_value(b.subrange(2, 6)),
        payload_size: be32_value(b.subrange(6, 10)),
    }
}

impl PacketHeader {
    /// A header of the current version.
    pub fn new(packet_type: u8, session_id: u32, payload_size: u32) -> (r: Self)
        ensures
            r == (PacketHeader { version: VERSION, packet_type, session_id, payload_size }),
    {
        Self { version: VERSION, packet_type, session_id, payload_size }
    }

    /// The header's ten bytes.
    pub fn to_bytes(&self) -> (r: Vec<u8>)
        ensures
            r@ == header_bytes(*self),
    {
        let mut buffer: Vec<u8> = Vec::new();
        buffer.push(self.version);
        buffer.push(self.packet_type);
        put_u32(&mut buffer, self.session_id);
        put_u32(&mut buffer, self.payload_size);
        assert(buffer@ =~= header_bytes(*self));
        buffer
    }

    /// Reads a header from the first ten bytes; fewer is an error.
    pub fn from_bytes(data: &[u8]) -> (r: Result<Self>)
        ensures
            r is Ok <==> data@.len() >= HEADER_SIZE,
            r matches Ok(h) ==> h == header_of(data@),
            r matches Err(e) ==> e is Protocol,
    {
        if data.len() < HEADER_SIZE {
            return Err(VpnError::Protocol("Header data too small".to_owned()));
        }
        Ok(
            Self {
                version: data[0],
                packet_type: data[1],
                session_id: get_u32(data, 2),
                payload_size: get_u32(data, 6),
            },
        )
    }
}

/// Reading back a written header gives the header.
pub proof fn lemma_header_roundtrip(h: PacketHeader, rest: Seq<u8>)
    ensures
        (header_bytes(h) + rest).len() == HEADER_SIZE + rest.len(),
        header_of(header_bytes(h) + rest) == h,
{
    let b = header_bytes(h) + rest;
    lemma_be32_roundtrip(h.session_id);
    lemma_be32_roundtrip(h.payload_size);
    assert(b.subrange(2, 6) =~= be32(h.session_id));
    assert(b.subrange(6, 10) =~= be32(h.payload_size));
}

/// What decoding a framed packet gives: a header of the current version whose
/// size matches the bytes after it, with those bytes as payload.
pub open spec fn decode_spec(data: Seq<u8>) -> Option<(PacketHeader, Seq<u8>)> {
    if data.len() < HEADER_SIZE {
        None
    } else {
        let h = header_of(data);
        if h.version != VERSION {
            None
        } else if h.payload_size as int != data.len() - HEADER_SIZE {
            None
        } else {
            Some((h, data.subrange(HEADER_SIZE as int, data.len() as int)))
        }
    }
}

/// Frames and unframes the packets of one session, counting what it did.
pub struct PacketFramer {
    pub session_id: u32,
    pub remote_ip: IpAddress,
    pub sent_packets: u64,
    pub received_packets: u64,
    pub errors: u64,
}

impl PacketFramer {
    /// A framer for the session with zeroed counters.
    pub fn new(session_id: u32, remote_ip: IpAddress) -> (r: Self)
        ensures
            r.session_id == session_id,
            r.remote_ip == remote_ip,
            r.sent_packets == 0 && r.received_packets == 0 && r.errors == 0,
    {
        Self { session_id, remote_ip, sent_packets: 0, received_packets: 0, errors: 0 }
    }

    /// Frames `data` as a data packet of this session and counts it as sent.
    pub fn frame_packet(&mut self, data: &[u8]) -> (r: Vec<u8>)
        requires
            data@.len() <= u32::MAX,
            old(self).sent_packets < u64::MAX,
        ensures
            r@ == header_bytes(PacketHeader::new_spec(TYPE_DATA, old(self).session_id, data@.len() as u32))
                + data@,
            final(self).sent_packets == old(self).sent_packets + 1,
            final(self).received_packets == old(self).received_packets,
            final(self).errors == old(self).errors,
            final(self).session_id == old(self).session_id,
            final(self).remote_ip == old(self).remote_ip,
    {
        let header = PacketHeader::new(TYPE_DATA, self.session_id, data.len() as u32);
        let mut framed_packet = header.to_bytes();
        put_slice(&mut framed_packet, data);
        self.sent_packets = self.sent_packets + 1;
        framed_packet
    }

    /// Decodes a received framed packet. A short packet, another version or a
    /// size that does not match is an error, counted as such; a good packet is
    /// counted as received.
    pub fn decode_packet(&mut self, data: &[u8]) -> (r: Result<(PacketHeader, Vec<u8>)>)
        requires
            old(self).received_packets < u64::MAX,
            old(self).errors < u64::MAX,
        ensures
            r is Ok <==> decode_spec(data@) is Some,
            r matches Ok((h, p)) ==> decode_spec(data@) == Some((h, p@)),
            r matches Err(e) ==> e is Protocol,
            r is Ok ==> final(self).received_packets == old(self).received_packets + 1
                && final(self).errors == old(self).errors,
            r is Err ==> final(self).received_packets == old(self).received_packets
                && final(self).errors == old(self).errors + 1,
            final(self).sent_packets == old(self).sent_packets,
            final(self).session_id == old(self).session_id,
            final(self).remote_ip == old(self).remote_ip,
    {
        if data.len() < HEADER_SIZE {
            self.errors = self.errors + 1;
            return Err(VpnError::Protocol("Packet too small".to_owned()));
        }
        let header = PacketHeader::from_bytes(data)?;
        if header.version != VERSION {
            self.errors = self.errors + 1;
            return Err(VpnError::Protocol("Invalid packet version".to_owned()));
        }
        if header.payload_size as usize != data.len() - HEADER_SIZE {
            self.errors = self.errors + 1;
            return Err(VpnError::Protocol("Payload size mismatch".to_owned()));
        }
        let payload = copy_range(data, HEADER_SIZE, data.len());
        self.received_packets = self.received_packets + 1;
        Ok((header, payload))
    }

    /// A keep-alive packet of this session: a header alone, size zero.
    pub fn create_keepalive(&self) -> (r: Vec<u8>)
        ensures
            r@ == header_bytes(PacketHeader::new_spec(TYPE_KEEPALIVE, self.session_id, 0)),
    {
        let header = PacketHeader::new(TYPE_KEEPALIVE, self.session_id, 0);
        header.to_bytes()
    }

    /// Whether `data` starts with a header of keep-alive type.
    pub fn is_keepalive(&self, data: &[u8]) -> (r: bool)
        ensures
            r == (data@.len() >= HEADER_SIZE && data@[1] == TYPE_KEEPALIVE),
    {
        if data.len() >= HEADER_SIZE {
            match PacketHeader::from_bytes(data) {
                Ok(header) => {
                    return header.packet_type == TYPE_KEEPALIVE;
                },
                Err(_) => {},
            }
        }
        false
    }

    /// The counters: sent, received, errors.
    pub fn get_stats(&self) -> (r: (u64, u64, u64))
        ensures
            r == (self.sent_packets, self.received_packets, self.errors),
    {
        (self.sent_packets, self.received_packets, self.errors)
    }
}

impl PacketHeader {
    /// The header that [`PacketHeader::new`] builds.
    pub open spec fn new_spec(packet_type: u8, session_id: u32, payload_size: u32) -> PacketHeader {
        PacketHeader { version: VERSION, packet_type, session_id, payload_size }
    }
}

/// Decoding what the framer framed gives the header it wrote and the payload.
pub proof fn lemma_frame_roundtrip(session_id: u32, data: Seq<u8>)
    requires
        data.len() <= u32::MAX,
    ensures
        decode_spec(header_bytes(PacketHeader::new_spec(TYPE_DATA, session_id, data.len() as u32)) + data)
            == Some((PacketHeader::new_spec(TYPE_DATA, session_id, data.len() as u32), data)),
{
    let h = PacketHeader::new_spec(TYPE_DATA, session_id, data.len() as u32);
    lemma_header_roundtrip(h, data);
    let b = header_bytes(h) + data;
    assert(b.subrange(HEADER_SIZE as int, b.len() as int) =~= data);
}

/// A keep-alive packet is recognised as one.
pub proof fn lemma_keepalive_recognised(session_id: u32)
    ensures
        header_bytes(PacketHeader::new_spec(TYPE_KEEPALIVE, session_id, 0)).len() >= HEADER_SIZE,
        header_bytes(PacketHeader::new_spec(TYPE_KEEPALIVE, session_id, 0))[1] == TYPE_KEEPALIVE,
{
}

} // verus!
