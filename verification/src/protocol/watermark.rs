//! The HTTP watermark handshake that opens a SoftEther session: the
//! watermark itself and what the server's answer holds.

use vstd::prelude::*;
use crate::error::{Result, VpnError};
use crate::text::join2;

verus! {

/// SoftEther VPN watermark: the GIF89a image that a client posts to
/// `/vpnsvc/connect.cgi` when the plain `VPNCONNECT` body is refused.
pub const SOFTETHER_WATERMARK: [u8; 128] = [
    0x47, 0x49, 0x46, 0x38, 0x39, 0x61, 0xC8, 0x00, 0x33, 0x00, 0xF2, 0x00, 0x00, 0x36, 0x37, 0x34,
    0x79, 0x68, 0x54, 0x80, 0x80, 0x80, 0xAF, 0x7F, 0x5B, 0xB3, 0xA8, 0x9D, 0xD5, 0xD5, 0xD4, 0xFF,
    0xFF, 0xFF, 0x00, 0x00, 0x00, 0x2C, 0x00, 0x00, 0x00, 0x00, 0xC8, 0x00, 0x33, 0x00, 0x00, 0x03,
    0xFE, 0x08, 0x1A, 0xDC, 0x34, 0x0A, 0x04, 0x41, 0x6B, 0x65, 0x31, 0x4F, 0x11, 0x80, 0xF9, 0x60,
    0x28, 0x8E, 0x64, 0x69, 0x9E, 0x68, 0xAA, 0xAE, 0x6C, 0xEB, 0x9A, 0x4B, 0xE3, 0x0C, 0x0C, 0x25,
    0x6F, 0x56, 0xA7, 0xE9, 0xD2, 0xEB, 0xFF, 0xC0, 0xA0, 0x70, 0xC8, 0x8A, 0xDC, 0x2C, 0x9C, 0xC6,
    0x05, 0xC7, 0x31, 0x66, 0x24, 0x04, 0xA2, 0x74, 0x4A, 0xAD, 0x4E, 0x05, 0xB1, 0x0D, 0x61, 0xCB,
    0x25, 0xD4, 0xB8, 0x49, 0x1B, 0xE6, 0x19, 0xB1, 0x9A, 0xCF, 0xE8, 0xF4, 0x07, 0x2B, 0x11, 0x74,
];

/// Response from the HTTP watermark handshake.
#[derive(Debug)]
pub struct WatermarkResponse {
    pub session_established: bool,
    pub response_data: Vec<u8>,
}

impl WatermarkResponse {
    /// Check if the session was successfully established.
    pub fn is_session_established(&self) -> (r: bool)
        ensures
            r == self.session_established,
    {
        self.session_established
    }

    /// The response data from the server.
    pub fn response_data(&self) -> (r: &[u8])
        ensures
            r@ == self.response_data@,
    {
        self.response_data.as_slice()
    }
}

/// The body that a handshake attempt posts.
#[derive(Debug, Clone, Copy, PartialEq, Eq, Structural)]
pub enum WatermarkBody {
    /// The plain text `VPNCONNECT`, tried first
    Connect,
    /// The GIF watermark, tried when the plain text is refused
    Watermark,
}

/// What a handshake attempt posts to `/vpnsvc/connect.cgi`.
#[derive(Debug)]
pub struct WatermarkRequest {
    pub content_type: String,
    pub body: Vec<u8>,
}

/// The content type and body of an attempt.
pub open spec fn request_spec(kind: WatermarkBody) -> (Seq<char>, Seq<u8>) {
    match kind {
        WatermarkBody::Connect => ("application/x-www-form-urlencoded"@, "VPNCONNECT"@.map_values(|c: char| c as u8)),
        WatermarkBody::Watermark => ("image/gif"@, SOFTETHER_WATERMARK@),
    }
}

/// The request of an attempt.
pub fn watermark_request(kind: WatermarkBody) -> (r: WatermarkRequest)
    ensures
        (r.content_type@, r.body@) == request_spec(kind),
{
    match kind {
        WatermarkBody::Connect => {
            let body: Vec<u8> = vec![0x56, 0x50, 0x4E, 0x43, 0x4F, 0x4E, 0x4E, 0x45, 0x43, 0x54];
            proof {
                reveal_strlit("VPNCONNECT");
                assert(body@ =~= "VPNCONNECT"@.map_values(|c: char| c as u8));
            }
            WatermarkRequest { content_type: "application/x-www-form-urlencoded".to_owned(), body }
        },
        WatermarkBody::Watermark => {
            let mut body: Vec<u8> = Vec::new();
            let mut i: usize = 0;
            while i < 128
                invariant
                    i <= 128,
                    body@ == SOFTETHER_WATERMARK@.subrange(0, i as int),
                decreases 128 - i,
            {
                body.push(SOFTETHER_WATERMARK[i]);
                i = i + 1;
            }
            assert(body@ =~= SOFTETHER_WATERMARK@);
            WatermarkRequest { content_type: "image/gif".to_owned(), body }
        },
    }
}

/// What follows an answer to a handshake attempt.
#[derive(Debug)]
pub enum HandshakeStep {
    /// The session is established
    Done(WatermarkResponse),
    /// Post the next body
    Send(WatermarkBody),
}

/// The handshake's answer to the reply of an attempt: a successful HTTP
/// status establishes the session with the reply's body; a refused
/// `VPNCONNECT` is followed by the watermark; a refused watermark ends the
/// handshake with a protocol error that names the HTTP status (`status`,
/// as the HTTP client prints it).
pub fn handshake_reply(sent: WatermarkBody, success: bool, status: &str, body: Vec<u8>) -> (r: Result<HandshakeStep>)
    ensures
        success ==> (r matches Ok(HandshakeStep::Done(resp)) && resp.session_established
            && resp.response_data@ == body@),
        !success && sent == WatermarkBody::Connect ==> r matches Ok(HandshakeStep::Send(WatermarkBody::Watermark)),
        !success && sent == WatermarkBody::Watermark ==> (r matches Err(VpnError::Protocol(m))
            && m@ == "Watermark handshake rejected: HTTP "@ + status@),
{
    if success {
        return Ok(HandshakeStep::Done(WatermarkResponse { session_established: true, response_data: body }));
    }
    match sent {
        WatermarkBody::Connect => Ok(HandshakeStep::Send(WatermarkBody::Watermark)),
        WatermarkBody::Watermark => Err(VpnError::Protocol(join2("Watermark handshake rejected: HTTP ", status))),
    }
}

/// The address of the handshake: `https://<ip>:<port>/vpnsvc/connect.cgi`,
/// with the server's address as text.
pub fn connect_url(ip_text: &str, port: u16) -> (r: String)
    ensures
        r@ == "https://"@ + ip_text@ + ":"@ + crate::text::decimal(port as nat) + "/vpnsvc/connect.cgi"@,
{
    let a = join2("https://", ip_text);
    let b = join2(a.as_str(), ":");
    let p = crate::text::u64_to_decimal(port as u64);
    let c = join2(b.as_str(), p.as_str());
    join2(c.as_str(), "/vpnsvc/connect.cgi")
}

} // verus!
