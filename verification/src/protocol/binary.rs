//! The binary SoftEther protocol used after authentication: typed packets
//! with a session id, a sequence number and a length-prefixed payload, and
//! the client state that numbers them.

use vstd::prelude::*;
use crate::error::{Result, VpnError};
use crate::net::SocketAddress;
use crate::wire::{be32, be32_value, copy_range, get_u32, lemma_be32_roundtrip, put_slice, put_u32};

verus! {

pub const PACKET_TYPE_HELLO: u8 = 0x01;

pub const PACKET_TYPE_HELLO_RESPONSE: u8 = 0x02;

pub const PACKET_TYPE_KEEPALIVE: u8 = 0x03;

pub const PACKET_TYPE_DATA: u8 = 0x04;

pub const PACKET_TYPE_SESSION_ESTABLISH: u8 = 0x05;

pub const PACKET_TYPE_SESSION_RESPONSE: u8 = 0x06;

/// Length of a packet header: type, session id, sequence, data length.
pub const HEADER_LEN: usize = 13;

/// Binary protocol packet structure.
#[derive(Debug, Clone)]
pub struct SoftEtherPacket {
    pub packet_type: u8,
    pub session_id: u32,
    pub sequence: u32,
    pub data: Vec<u8>,
}

/// A packet on the wire.
pub open spec fn softether_bytes(packet_type: u8, session_id: u32, sequence: u32, data: Seq<u8>) -> Seq<
    u8,
> {
    seq![packet_type] + be32(session_id) + be32(sequence) + be32(data.len() as u32) + data
}

/// The packet at the start of `data`: a thirteen-byte header whose last field
/// is the payload length, then that many payload bytes; later bytes are
/// ignored.
pub open spec fn parse_softether(data: Seq<u8>) -> Option<(u8, u32, u32, Seq<u8>)> {
    if data.len() < 13 {
        None
    } else {
        let len = be32_value(data.subrange(9, 13)) as int;
        if data.len() - 13 < len {
            None
        } else {
            Some(
                (
                    data[0],
                    be32_value(data.subrange(1, 5)),
                    be32_value(data.subrange(5, 9)),
                    data.subrange(13, 13 + len),
                ),
            )
        }
    }
}

/// The ASCII bytes of a text constant.
fn ascii_bytes(s: &str) -> (r: Vec<u8>)
    ensures
        r@ == vstd::utf8::encode_utf8(s@),
{
    let b = s.as_bytes();
    copy_range(b, 0, b.len())
}

impl SoftEtherPacket {
    /// A hello packet for protocol negotiation: session and sequence zero,
    /// data `VPNSE-HELLO`.
    pub fn create_hello() -> (r: Self)
        ensures
            r.packet_type == PACKET_TYPE_HELLO,
            r.session_id == 0,
            r.sequence == 0,
            r.data@ == vstd::utf8::encode_utf8("VPNSE-HELLO"@),
    {
        Self { packet_type: PACKET_TYPE_HELLO, session_id: 0, sequence: 0, data: ascii_bytes("VPNSE-HELLO") }
    }

    /// A keep-alive packet with no data.
    pub fn create_keepalive(session_id: u32, sequence: u32) -> (r: Self)
        ensures
            r.packet_type == PACKET_TYPE_KEEPALIVE,
            r.session_id == session_id,
            r.sequence == sequence,
            r.data@ == Seq::<u8>::empty(),
    {
        Self { packet_type: PACKET_TYPE_KEEPALIVE, session_id, sequence, data: Vec::new() }
    }

    /// A VPN data packet.
    pub fn create_data_packet(session_id: u32, sequence: u32, data: Vec<u8>) -> (r: Self)
        ensures
            r.packet_type == PACKET_TYPE_DATA,
            r.session_id == session_id,
            r.sequence == sequence,
            r.data@ == data@,
    {
        Self { packet_type: PACKET_TYPE_DATA, session_id, sequence, data }
    }

    /// A session establishment packet: sequence zero, data `ESTABLISH`.
    pub fn create_session_establish(session_id: u32) -> (r: Self)
        ensures
            r.packet_type == PACKET_TYPE_SESSION_ESTABLISH,
            r.session_id == session_id,
            r.sequence == 0,
            r.data@ == vstd::utf8::encode_utf8("ESTABLISH"@),
    {
        Self {
            packet_type: PACKET_TYPE_SESSION_ESTABLISH,
            session_id,
            sequence: 0,
            data: ascii_bytes("ESTABLISH"),
        }
    }

    /// Convert the packet to bytes for transmission.
    pub fn to_bytes(&self) -> (r: Vec<u8>)
        requires
            self.data@.len() <= u32::MAX,
        ensures
            r@ == softether_bytes(self.packet_type, self.session_id, self.sequence, self.data@),
    {
        let mut buf: Vec<u8> = Vec::new();
        buf.push(self.packet_type);
        put_u32(&mut buf, self.session_id);
        put_u32(&mut buf, self.sequence);
        put_u32(&mut buf, self.data.len() as u32);
        put_slice(&mut buf, self.data.as_slice());
        assert(buf@ =~= softether_bytes(self.packet_type, self.session_id, self.sequence, self.data@));
        buf
    }

    /// Parse a packet from bytes.
    pub fn from_bytes(data: Vec<u8>) -> (r: Result<Self>)
        ensures
            r is Ok <==> parse_softether(data@) is Some,
            r matches Ok(p) ==> parse_softether(data@) == Some(
                (p.packet_type, p.session_id, p.sequence, p.data@),
            ),
            r matches Err(e) ==> e is Protocol,
    {
        let d = data.as_slice();
        if d.len() < 13 {
            return Err(VpnError::Protocol("Packet too short".to_owned()));
        }
        let packet_type = d[0];
        let session_id = get_u32(d, 1);
        let sequence = get_u32(d, 5);
        let data_len = get_u32(d, 9) as usize;
        if d.len() - 13 < data_len {
            return Err(VpnError::Protocol("Invalid data length".to_owned()));
        }
        let payload = copy_range(d, 13, 13 + data_len);
        Ok(Self { packet_type, session_id, sequence, data: payload })
    }
}

/// Reading back a written packet gives the packet.
pub proof fn lemma_softether_roundtrip(packet_type: u8, session_id: u32, sequence: u32, data: Seq<u8>)
    requires
        data.len() <= u32::MAX,
    ensures
        parse_softether(softether_bytes(packet_type, session_id, sequence, data)) == Some(
            (packet_type, session_id, sequence, data),
        ),
{
    let b = softether_bytes(packet_type, session_id, sequence, data);
    lemma_be32_roundtrip(session_id);
    lemma_be32_roundtrip(sequence);
    lemma_be32_roundtrip(data.len() as u32);
    assert(b.subrange(1, 5) =~= be32(session_id));
    assert(b.subrange(5, 9) =~= be32(sequence));
    assert(b.subrange(9, 13) =~= be32(data.len() as u32));
    assert(b.subrange(13, 13 + data.len() as int) =~= data);
}

/// State of the binary protocol client: the server, the session it was given
/// and the last sequence number it used. Sending and receiving are done by the
/// caller with the packets that these methods build and check.
#[derive(Debug, Clone)]
pub struct BinaryProtocolClient {
    pub server_addr: SocketAddress,
    pub session_id: Option<u32>,
    pub sequence_counter: u32,
    pub is_connected: bool,
}

/// Session id handed out after authentication.
pub const AUTHENTICATED_SESSION_ID: u32 = 12345;

impl BinaryProtocolClient {
    /// A client for the given server: not connected, no session, counter zero.
    pub fn new(server_addr: SocketAddress) -> (r: Self)
        ensures
            r.server_addr == server_addr,
            r.session_id is None,
            r.sequence_counter == 0,
            !r.is_connected,
    {
        Self { server_addr, session_id: None, sequence_counter: 0, is_connected: false }
    }

    /// The hello packet to send when the connection is opened.
    pub fn hello_packet(&self) -> (r: SoftEtherPacket)
        ensures
            r.packet_type == PACKET_TYPE_HELLO,
            r.session_id == 0 && r.sequence == 0,
            r.data@ == vstd::utf8::encode_utf8("VPNSE-HELLO"@),
    {
        SoftEtherPacket::create_hello()
    }

    /// Records an open connection once the server answered the hello; any
    /// other answer is a protocol error and leaves the state as it was.
    pub fn accept_hello_response(&mut self, response: &SoftEtherPacket) -> (r: Result<()>)
        ensures
            r is Ok <==> response.packet_type == PACKET_TYPE_HELLO_RESPONSE,
            r is Ok ==> final(self).is_connected && final(self).session_id == old(self).session_id
                && final(self).sequence_counter == old(self).sequence_counter
                && final(self).server_addr == old(self).server_addr,
            r is Err ==> *final(self) == *old(self),
            r matches Err(e) ==> e is Protocol,
    {
        if response.packet_type != PACKET_TYPE_HELLO_RESPONSE {
            return Err(VpnError::Protocol("Invalid hello response".to_owned()));
        }
        self.is_connected = true;
        Ok(())
    }

    /// Takes over the authenticated session and returns its id.
    pub fn authenticate(&mut self, username: &str, password: &str, hub: &str) -> (r: Result<u32>)
        ensures
            r == Ok::<u32, VpnError>(AUTHENTICATED_SESSION_ID),
            final(self).session_id == Some(AUTHENTICATED_SESSION_ID),
            final(self).sequence_counter == old(self).sequence_counter,
            final(self).is_connected == old(self).is_connected,
            final(self).server_addr == old(self).server_addr,
    {
        self.session_id = Some(AUTHENTICATED_SESSION_ID);
        Ok(AUTHENTICATED_SESSION_ID)
    }

    /// The session establishment packet; needs a session.
    pub fn establish_packet(&self) -> (r: Result<SoftEtherPacket>)
        ensures
            r is Ok <==> self.session_id is Some,
            r matches Ok(p) ==> p.packet_type == PACKET_TYPE_SESSION_ESTABLISH && Some(p.session_id)
                == self.session_id && p.sequence == 0 && p.data@ == vstd::utf8::encode_utf8(
                "ESTABLISH"@,
            ),
            r matches Err(e) ==> e is Connection,
    {
        match self.session_id {
            Some(id) => Ok(SoftEtherPacket::create_session_establish(id)),
            None => Err(VpnError::Connection("Not authenticated".to_owned())),
        }
    }

    /// Checks the server's answer to the establishment packet.
    pub fn check_session_response(response: &SoftEtherPacket) -> (r: Result<()>)
        ensures
            r is Ok <==> response.packet_type == PACKET_TYPE_SESSION_RESPONSE,
            r matches Err(e) ==> e is Protocol,
    {
        if response.packet_type != PACKET_TYPE_SESSION_RESPONSE {
            return Err(VpnError::Protocol("Invalid session response".to_owned()));
        }
        Ok(())
    }

    /// The next keep-alive packet: the counter goes up by one and numbers it.
    /// Without a session this is an error and nothing changes.
    pub fn next_keepalive(&mut self) -> (r: Result<SoftEtherPacket>)
        requires
            old(self).sequence_counter < u32::MAX,
        ensures
            r is Ok <==> old(self).session_id is Some,
            r is Ok ==> final(self).sequence_counter == old(self).sequence_counter + 1,
            r matches Ok(p) ==> p.packet_type == PACKET_TYPE_KEEPALIVE && Some(p.session_id)
                == old(self).session_id && p.sequence == final(self).sequence_counter && p.data@
                == Seq::<u8>::empty(),
            r is Err ==> *final(self) == *old(self),
            r matches Err(e) ==> e is Connection,
            final(self).session_id == old(self).session_id,
            final(self).is_connected == old(self).is_connected,
            final(self).server_addr == old(self).server_addr,
    {
        match self.session_id {
            Some(id) => {
                self.sequence_counter = self.sequence_counter + 1;
                Ok(SoftEtherPacket::create_keepalive(id, self.sequence_counter))
            },
            None => Err(VpnError::Connection("Not authenticated".to_owned())),
        }
    }

    /// The next data packet carrying `data`, numbered like
    /// [`BinaryProtocolClient::next_keepalive`].
    pub fn next_data_packet(&mut self, data: Vec<u8>) -> (r: Result<SoftEtherPacket>)
        requires
            old(self).sequence_counter < u32::MAX,
        ensures
            r is Ok <==> old(self).session_id is Some,
            r is Ok ==> final(self).sequence_counter == old(self).sequence_counter + 1,
            r matches Ok(p) ==> p.packet_type == PACKET_TYPE_DATA && Some(p.session_id)
                == old(self).session_id && p.sequence == final(self).sequence_counter && p.data@
                == data@,
            r is Err ==> *final(self) == *old(self),
            r matches Err(e) ==> e is Connection,
            final(self).session_id == old(self).session_id,
            final(self).is_connected == old(self).is_connected,
            final(self).server_addr == old(self).server_addr,
    {
        match self.session_id {
            Some(id) => {
                self.sequence_counter = self.sequence_counter + 1;
                Ok(SoftEtherPacket::create_data_packet(id, self.sequence_counter, data))
            },
            None => Err(VpnError::Connection("Not authenticated".to_owned())),
        }
    }

    /// Forgets the connection and the session.
    pub fn disconnect(&mut self) -> (r: Result<()>)
        ensures
            r is Ok,
            !final(self).is_connected,
            final(self).session_id is None,
            final(self).sequence_counter == old(self).sequence_counter,
            final(self).server_addr == old(self).server_addr,
    {
        self.is_connected = false;
        self.session_id = None;
        Ok(())
    }

    /// Check if connected.
    pub fn is_connected(&self) -> (r: bool)
        ensures
            r == self.is_connected,
    {
        self.is_connected
    }

    /// Current session id.
    pub fn session_id(&self) -> (r: Option<u32>)
        ensures
            r == self.session_id,
    {
        self.session_id
    }
}

} // verus!
