//! The decisions behind the C interface: error and status codes, and the
//! bytes written into a caller's text buffer.

use vstd::prelude::*;
use crate::client::ConnectionStatus;
use crate::error::VpnError;

verus! {

/// Error codes returned by the C interface.
#[derive(Debug, Clone, Copy, PartialEq, Eq, Structural)]
pub enum VPNSEError {
    Success,
    InvalidConfig,
    ConnectionFailed,
    AuthenticationFailed,
    NetworkError,
    InvalidParameter,
    TunnelError,
    BufferTooSmall,
    InternalError,
}

/// The number that stands for an error code.
pub open spec fn error_code(e: VPNSEError) -> i32 {
    match e {
        VPNSEError::Success => 0,
        VPNSEError::InvalidConfig => 1,
        VPNSEError::ConnectionFailed => 2,
        VPNSEError::AuthenticationFailed => 3,
        VPNSEError::NetworkError => 4,
        VPNSEError::InvalidParameter => 5,
        VPNSEError::TunnelError => 6,
        VPNSEError::BufferTooSmall => 7,
        VPNSEError::InternalError => 99,
    }
}

impl VPNSEError {
    /// The number that stands for the code.
    pub fn code(&self) -> (r: i32)
        ensures
            r == error_code(*self),
    {
        match self {
            VPNSEError::Success => 0,
            VPNSEError::InvalidConfig => 1,
            VPNSEError::ConnectionFailed => 2,
            VPNSEError::AuthenticationFailed => 3,
            VPNSEError::NetworkError => 4,
            VPNSEError::InvalidParameter => 5,
            VPNSEError::TunnelError => 6,
            VPNSEError::BufferTooSmall => 7,
            VPNSEError::InternalError => 99,
        }
    }
}

/// The code a library error is reported with.
pub open spec fn code_of_error(error: VpnError) -> VPNSEError {
    match error {
        VpnError::Config(_) => VPNSEError::InvalidConfig,
        VpnError::Connection(_) => VPNSEError::ConnectionFailed,
        VpnError::Authentication(_) => VPNSEError::AuthenticationFailed,
        VpnError::Network(_) => VPNSEError::NetworkError,
        VpnError::TunTap(_) => VPNSEError::TunnelError,
        VpnError::Routing(_) => VPNSEError::TunnelError,
        _ => VPNSEError::InternalError,
    }
}

impl From<VpnError> for VPNSEError {
    fn from(error: VpnError) -> (r: Self) {
        match error {
            VpnError::Config(_) => VPNSEError::InvalidConfig,
            VpnError::Connection(_) => VPNSEError::ConnectionFailed,
            VpnError::Authentication(_) => VPNSEError::AuthenticationFailed,
            VpnError::Network(_) => VPNSEError::NetworkError,
            VpnError::TunTap(_) => VPNSEError::TunnelError,
            VpnError::Routing(_) => VPNSEError::TunnelError,
            _ => VPNSEError::InternalError,
        }
    }
}

impl vstd::std_specs::convert::FromSpecImpl<VpnError> for VPNSEError {
    open spec fn obeys_from_spec() -> bool {
        true
    }

    open spec fn from_spec(error: VpnError) -> Self {
        code_of_error(error)
    }
}

/// The number a connection status is reported with.
pub open spec fn status_number(status: ConnectionStatus) -> i32 {
    match status {
        ConnectionStatus::Disconnected => 0,
        ConnectionStatus::Connecting => 1,
        ConnectionStatus::Connected => 2,
        ConnectionStatus::Tunneling => 3,
    }
}

/// The number a connection status is reported with; -1 without a client.
pub fn status_code(status: Option<ConnectionStatus>) -> (r: i32)
    ensures
        r == match status {
            Some(s) => status_number(s),
            None => -1i32,
        },
{
    match status {
        None => -1,
        Some(ConnectionStatus::Disconnected) => 0,
        Some(ConnectionStatus::Connecting) => 1,
        Some(ConnectionStatus::Connected) => 2,
        Some(ConnectionStatus::Tunneling) => 3,
    }
}

/// The bytes of `text` followed by a NUL, when they fit a buffer of
/// `buffer_len` bytes: text with a NUL inside is an invalid parameter, and
/// text that does not fit needs a larger buffer.
pub open spec fn c_text_bytes(text: Seq<u8>, buffer_len: usize) -> Result<Seq<u8>, VPNSEError> {
    if text.contains(0u8) {
        Err(VPNSEError::InvalidParameter)
    } else if text.len() + 1 > buffer_len {
        Err(VPNSEError::BufferTooSmall)
    } else {
        Ok(text.push(0u8))
    }
}

/// What is written into a caller's buffer of `buffer_len` bytes for `text`.
pub fn c_text(text: &str, buffer_len: usize) -> (r: Result<Vec<u8>, VPNSEError>)
    ensures
        match c_text_bytes(vstd::utf8::encode_utf8(text@), buffer_len) {
            Ok(b) => r matches Ok(v) && v@ == b,
            Err(e) => r == Err::<Vec<u8>, VPNSEError>(e),
        },
{
    let bytes = text.as_bytes();
    assert(bytes@ == vstd::utf8::encode_utf8(text@));
    let mut out: Vec<u8> = Vec::new();
    let mut i: usize = 0;
    while i < bytes.len()
        invariant
            i <= bytes@.len(),
            bytes@ == vstd::utf8::encode_utf8(text@),
            out@ == bytes@.subrange(0, i as int),
            forall|j: int| 0 <= j < i ==> bytes@[j] != 0u8,
        decreases bytes@.len() - i,
    {
        if bytes[i] == 0 {
            assert(bytes@[i as int] == 0u8);
            assert(bytes@.contains(0u8));
            return Err(VPNSEError::InvalidParameter);
        }
        out.push(bytes[i]);
        i = i + 1;
    }
    assert(out@ =~= bytes@);
    assert(!bytes@.contains(0u8));
    if bytes.len() >= buffer_len {
        return Err(VPNSEError::BufferTooSmall);
    }
    out.push(0);
    Ok(out)
}

/// The answer to a request for a text about the tunnel: 1 without a
/// tunnel, else the code and the bytes to write (a buffer of zero bytes is
/// an invalid parameter).
pub fn tunnel_text_reply(text: Option<&str>, buffer_len: usize) -> (r: (i32, Vec<u8>))
    ensures
        buffer_len == 0 ==> r.0 == 5 && r.1@.len() == 0,
        buffer_len > 0 ==> match text {
            None => r.0 == 1 && r.1@.len() == 0,
            Some(t) => match c_text_bytes(vstd::utf8::encode_utf8(t@), buffer_len) {
                Ok(b) => r.0 == 0 && r.1@ == b,
                Err(e) => r.0 == error_code(e) && r.1@.len() == 0,
            },
        },
{
    if buffer_len == 0 {
        return (VPNSEError::InvalidParameter.code(), Vec::new());
    }
    match text {
        None => (1, Vec::new()),
        Some(t) => match c_text(t, buffer_len) {
            Ok(b) => (VPNSEError::Success.code(), b),
            Err(e) => (e.code(), Vec::new()),
        },
    }
}

/// The bytes written into a message buffer of `buffer_len` bytes for an
/// error message: the message (empty if it holds a NUL) with its NUL, cut to
/// leave room for a final NUL.
pub open spec fn error_message_bytes(message: Seq<u8>, buffer_len: usize) -> Seq<u8> {
    let with_nul = if message.contains(0u8) {
        seq![0u8]
    } else {
        message.push(0u8)
    };
    let n = if with_nul.len() < buffer_len - 1 {
        with_nul.len() as int
    } else {
        buffer_len - 1
    };
    with_nul.subrange(0, n).push(0u8)
}

/// The bytes written into a message buffer of `buffer_len` bytes for
/// `message`.
pub fn error_message(message: &str, buffer_len: usize) -> (r: Vec<u8>)
    requires
        buffer_len > 0,
    ensures
        r@ == error_message_bytes(vstd::utf8::encode_utf8(message@), buffer_len),
{
    let bytes = message.as_bytes();
    let mut with_nul: Vec<u8> = Vec::new();
    let mut i: usize = 0;
    let mut has_nul = false;
    while i < bytes.len()
        invariant
            i <= bytes@.len(),
            has_nul == bytes@.subrange(0, i as int).contains(0u8),
            !has_nul ==> with_nul@ == bytes@.subrange(0, i as int),
        decreases bytes@.len() - i,
    {
        let ghost before = has_nul;
        if bytes[i] == 0 {
            has_nul = true;
        }
        proof {
            let p = bytes@.subrange(0, i as int);
            let s = bytes@.subrange(0, i + 1);
            assert(s =~= p.push(bytes@[i as int]));
            if p.contains(0u8) {
                let k = choose|k: int| 0 <= k < p.len() && p[k] == 0u8;
                assert(s[k] == 0u8);
            }
            if bytes@[i as int] == 0u8 {
                assert(s[i as int] == 0u8);
            }
            if s.contains(0u8) {
                let k = choose|k: int| 0 <= k < s.len() && s[k] == 0u8;
                if k < i {
                    assert(p[k] == 0u8);
                }
            }
        }
        if !has_nul {
            with_nul.push(bytes[i]);
        }
        i = i + 1;
    }
    assert(bytes@.subrange(0, i as int) =~= bytes@);
    if has_nul {
        with_nul = Vec::new();
    }
    with_nul.push(0);
    let copy_len: usize = if with_nul.len() < buffer_len - 1 {
        with_nul.len()
    } else {
        buffer_len - 1
    };
    let mut out: Vec<u8> = Vec::new();
    let mut k: usize = 0;
    while k < copy_len
        invariant
            k <= copy_len,
            copy_len <= with_nul@.len(),
            out@ == with_nul@.subrange(0, k as int),
        decreases copy_len - k,
    {
        out.push(with_nul[k]);
        k = k + 1;
    }
    out.push(0);
    proof {
        let m = vstd::utf8::encode_utf8(message@);
        assert(m == bytes@);
        if has_nul {
            assert(with_nul@ =~= seq![0u8]);
        }
    }
    out
}

} // verus!
