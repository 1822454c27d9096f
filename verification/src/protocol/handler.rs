//! State of the SoftEther SSL-VPN protocol handler: the server, whether the
//! watermark handshake opened a session, and the PACK messages it sends.
//! The HTTP exchanges themselves are made by the caller.

use vstd::prelude::*;
use crate::clock::now_millis;
use crate::error::{Result, VpnError};
use crate::net::SocketAddress;
use crate::protocol::pack::{ElementView, Pack, ValueView, pack_fits, all_typed, pack_bytes, parse_pack};
use crate::protocol::watermark::WatermarkResponse;
use crate::random::random_u64;
use crate::text::{decimal, join2, u64_to_decimal};

verus! {

/// SoftEther SSL-VPN protocol handler.
pub struct ProtocolHandler {
    pub server_addr: SocketAddress,
    /// Whether the server's certificate is checked on the HTTPS exchanges
    pub verify_certificate: bool,
    pub session_established: bool,
    pub session_id: Option<String>,
}

/// The PACK elements that open every message of a session: its id, when
/// there is one.
pub open spec fn session_prefix(session_id: Option<String>) -> Seq<ElementView> {
    match session_id {
        Some(id) => seq![ElementView { name: "session_id"@, values: seq![ValueView::Str(id@)] }],
        None => Seq::empty(),
    }
}

/// A data message: the session prefix, the packet and the time stamp.
pub open spec fn data_pack_view(session_id: Option<String>, data: Seq<u8>, timestamp: u64) -> Seq<
    ElementView,
> {
    session_prefix(session_id) + seq![
        ElementView { name: "packet_data"@, values: seq![ValueView::Data(data)] },
        ElementView { name: "timestamp"@, values: seq![ValueView::Int64(timestamp)] },
    ]
}

/// A keepalive message: the session prefix, its type and the time stamp.
pub open spec fn keepalive_pack_view(session_id: Option<String>, timestamp: u64) -> Seq<ElementView> {
    session_prefix(session_id) + seq![
        ElementView { name: "type"@, values: seq![ValueView::Str("keepalive"@)] },
        ElementView { name: "timestamp"@, values: seq![ValueView::Int64(timestamp)] },
    ]
}

/// The session id made from `nonce`.
pub open spec fn session_text(nonce: u64) -> Seq<char> {
    "session_"@ + decimal(nonce as nat)
}

impl ProtocolHandler {
    /// A handler for `server_addr` with no session yet.
    pub fn new(server_addr: SocketAddress, verify_certificate: bool) -> (r: Result<Self>)
        ensures
            r matches Ok(h) && h.server_addr == server_addr && h.verify_certificate
                == verify_certificate && !h.session_established && h.session_id is None,
    {
        Ok(ProtocolHandler { server_addr, verify_certificate, session_established: false, session_id: None })
    }

    /// The server address.
    pub fn server_address(&self) -> (r: SocketAddress)
        ensures
            r == self.server_addr,
    {
        self.server_addr
    }

    /// Takes the answer to the watermark handshake: an established session
    /// gets the id `session_` followed by `nonce` in decimal.
    pub fn accept_handshake_with(&mut self, response: &WatermarkResponse, nonce: u64) -> (r: Result<()>)
        ensures
            final(self).server_addr == old(self).server_addr,
            final(self).verify_certificate == old(self).verify_certificate,
            response.session_established ==> r is Ok && final(self).session_established && (
            final(self).session_id matches Some(id) && id@ == session_text(nonce)),
            !response.session_established ==> (r matches Err(VpnError::Protocol(m)) && m@
                == "Failed to establish session"@) && final(self).session_established
                == old(self).session_established && final(self).session_id == old(self).session_id,
    {
        if response.is_session_established() {
            self.session_established = true;
            self.session_id = Some(join2("session_", u64_to_decimal(nonce).as_str()));
            Ok(())
        } else {
            Err(VpnError::Protocol("Failed to establish session".to_owned()))
        }
    }

    /// Takes the answer to the watermark handshake; an established session
    /// gets a random id.
    pub fn accept_handshake(&mut self, response: &WatermarkResponse) -> (r: Result<()>)
        ensures
            final(self).server_addr == old(self).server_addr,
            response.session_established ==> r is Ok && final(self).session_established
                && final(self).session_id is Some && exists|nonce: u64| #[trigger] session_text(nonce)
                == final(self).session_id->Some_0@,
            !response.session_established ==> (r matches Err(VpnError::Protocol(m)) && m@
                == "Failed to establish session"@) && final(self).session_id == old(self).session_id,
    {
        let nonce = random_u64();
        let r = self.accept_handshake_with(response, nonce);
        proof {
            if response.session_established {
                assert(session_text(nonce) == self.session_id->Some_0@);
            }
        }
        r
    }

    /// Whether a session is established.
    pub fn has_session(&self) -> (r: bool)
        ensures
            r == self.session_established,
    {
        self.session_established
    }

    /// The current session id.
    pub fn session_id(&self) -> (r: Option<&str>)
        ensures
            match self.session_id {
                Some(id) => r matches Some(s) && s@ == id@,
                None => r is None,
            },
    {
        match &self.session_id {
            Some(s) => Some(s.as_str()),
            None => None,
        }
    }

    /// A data PACK carrying `packet_data`, stamped with `timestamp` (seconds
    /// since the Unix epoch).
    pub fn create_data_pack_at(&self, packet_data: &[u8], timestamp: u64) -> (r: Pack)
        ensures
            r@ == data_pack_view(self.session_id, packet_data@, timestamp),
    {
        let mut pack = Pack::new();
        if let Some(session_id) = &self.session_id {
            pack.add_str("session_id", session_id.as_str());
        }
        let mut data: Vec<u8> = Vec::new();
        let mut i: usize = 0;
        while i < packet_data.len()
            invariant
                i <= packet_data@.len(),
                data@ == packet_data@.subrange(0, i as int),
            decreases packet_data@.len() - i,
        {
            data.push(packet_data[i]);
            i = i + 1;
        }
        assert(data@ =~= packet_data@);
        pack.add_data("packet_data", data);
        pack.add_int64("timestamp", timestamp);
        assert(pack@ =~= session_prefix(self.session_id) + seq![
            ElementView { name: "packet_data"@, values: seq![ValueView::Data(packet_data@)] },
            ElementView { name: "timestamp"@, values: seq![ValueView::Int64(timestamp)] },
        ]);
        pack
    }

    /// A data PACK carrying `packet_data`, stamped with the current time.
    pub fn create_data_pack(&self, packet_data: &[u8]) -> (r: Pack)
        ensures
            exists|timestamp: u64| #[trigger] data_pack_view(self.session_id, packet_data@, timestamp) == r@,
    {
        let timestamp = now_millis() / 1000;
        let r = self.create_data_pack_at(packet_data, timestamp);
        assert(data_pack_view(self.session_id, packet_data@, timestamp) == r@);
        r
    }

    /// A keepalive PACK stamped with `timestamp` (seconds since the epoch).
    pub fn create_keepalive_pack_at(&self, timestamp: u64) -> (r: Pack)
        ensures
            r@ == keepalive_pack_view(self.session_id, timestamp),
    {
        let mut pack = Pack::new();
        if let Some(session_id) = &self.session_id {
            pack.add_str("session_id", session_id.as_str());
        }
        pack.add_str("type", "keepalive");
        pack.add_int64("timestamp", timestamp);
        assert(pack@ =~= session_prefix(self.session_id) + seq![
            ElementView { name: "type"@, values: seq![ValueView::Str("keepalive"@)] },
            ElementView { name: "timestamp"@, values: seq![ValueView::Int64(timestamp)] },
        ]);
        pack
    }

    /// A keepalive PACK stamped with the current time.
    pub fn create_keepalive_pack(&self) -> (r: Pack)
        ensures
            exists|timestamp: u64| #[trigger] keepalive_pack_view(self.session_id, timestamp) == r@,
    {
        let timestamp = now_millis() / 1000;
        let r = self.create_keepalive_pack_at(timestamp);
        assert(keepalive_pack_view(self.session_id, timestamp) == r@);
        r
    }

    /// The body of a PACK exchange: the PACK in binary form. Refused, with a
    /// protocol error, before a session is established, and where the PACK
    /// cannot be written.
    pub fn pack_request(&self, pack: &Pack) -> (r: Result<Vec<u8>>)
        requires
            pack_fits(pack@),
        ensures
            !self.session_established ==> (r matches Err(VpnError::Protocol(m)) && m@ == "Session not established"@),
            self.session_established ==> (r is Ok <==> all_typed(pack@)),
            r matches Ok(b) ==> b@ == pack_bytes(pack@),
            r matches Err(e) ==> e is Protocol,
    {
        if !self.session_established {
            return Err(VpnError::Protocol("Session not established".to_owned()));
        }
        pack.to_bytes()
    }

    /// The PACK that answers an exchange: read from the reply's body when the
    /// HTTP status is a success, else a protocol error that names the status
    /// (`status`, as the HTTP client prints it).
    pub fn pack_reply(success: bool, status: &str, body: Vec<u8>) -> (r: Result<Pack>)
        ensures
            !success ==> (r matches Err(VpnError::Protocol(m)) && m@ == "PACK communication failed: HTTP "@ + status@),
            success ==> (r is Ok <==> parse_pack(body@) is Some),
            success ==> (r matches Ok(p) ==> parse_pack(body@) == Some(p@)),
            r matches Err(e) ==> e is Protocol,
    {
        if !success {
            return Err(VpnError::Protocol(join2("PACK communication failed: HTTP ", status)));
        }
        Pack::from_bytes(body)
    }
}

} // verus!
