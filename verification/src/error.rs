//! Error type of the library.

use vstd::prelude::*;
use crate::text::join2;

verus! {

#[verifier::external_type_specification]
#[verifier::external_body]
pub struct ExIoError(std::io::Error);

/// Main error type for VPN operations.
#[derive(Debug)]
pub enum VpnError {
    /// Configuration errors
    Config(String),
    /// Configuration validation errors
    Configuration(String),
    /// Network connectivity errors
    Network(String),
    /// Connection errors
    Connection(String),
    /// Authentication errors
    Authentication(String),
    /// Protocol errors
    Protocol(String),
    /// Cryptographic errors
    Crypto(String),
    /// Platform-specific errors
    Platform(String),
    /// TUN/TAP interface errors
    TunTap(String),
    /// Routing errors
    Routing(String),
    /// DNS configuration errors
    Dns(String),
    /// Permission/privilege errors
    Permission(String),
    /// Connection limit errors
    ConnectionLimitReached(String),
    /// Rate limiting errors
    RateLimitExceeded(String),
    /// Retry limit errors
    RetryLimitExceeded(String),
    /// IO errors
    Io(std::io::Error),
    /// TLS errors
    Tls(String),
    /// Timeout errors
    Timeout(String),
    /// Invalid state errors
    InvalidState(String),
    /// Other errors
    Other(String),
}

/// Result type alias for VPN operations.
pub type Result<T> = std::result::Result<T, VpnError>;

impl VpnError {
    /// The text that precedes the payload when the error is displayed.
    pub open spec fn display_prefix(self) -> Seq<char> {
        match self {
            VpnError::Config(_) => "Configuration error: "@,
            VpnError::Configuration(_) => "Configuration validation error: "@,
            VpnError::Network(_) => "Network error: "@,
            VpnError::Connection(_) => "Connection failed: "@,
            VpnError::Authentication(_) => "Authentication failed: "@,
            VpnError::Protocol(_) => "Protocol error: "@,
            VpnError::Crypto(_) => "Cryptographic error: "@,
            VpnError::Platform(_) => "Platform error: "@,
            VpnError::TunTap(_) => "TUN/TAP error: "@,
            VpnError::Routing(_) => "Routing error: "@,
            VpnError::Dns(_) => "DNS error: "@,
            VpnError::Permission(_) => "Permission error: "@,
            VpnError::ConnectionLimitReached(_) => "Connection limit reached: "@,
            VpnError::RateLimitExceeded(_) => "Rate limit exceeded: "@,
            VpnError::RetryLimitExceeded(_) => "Retry limit exceeded: "@,
            VpnError::Io(_) => "IO error: "@,
            VpnError::Tls(_) => "TLS error: "@,
            VpnError::Timeout(_) => "Operation timed out: "@,
            VpnError::InvalidState(_) => "Invalid state: "@,
            VpnError::Other(_) => "Other error: "@,
        }
    }

    /// The message carried by the error (every variant but `Io` carries one).
    pub open spec fn payload(self) -> Seq<char> {
        match self {
            VpnError::Config(m) => m@,
            VpnError::Configuration(m) => m@,
            VpnError::Network(m) => m@,
            VpnError::Connection(m) => m@,
            VpnError::Authentication(m) => m@,
            VpnError::Protocol(m) => m@,
            VpnError::Crypto(m) => m@,
            VpnError::Platform(m) => m@,
            VpnError::TunTap(m) => m@,
            VpnError::Routing(m) => m@,
            VpnError::Dns(m) => m@,
            VpnError::Permission(m) => m@,
            VpnError::ConnectionLimitReached(m) => m@,
            VpnError::RateLimitExceeded(m) => m@,
            VpnError::RetryLimitExceeded(m) => m@,
            VpnError::Io(_) => Seq::empty(),
            VpnError::Tls(m) => m@,
            VpnError::Timeout(m) => m@,
            VpnError::InvalidState(m) => m@,
            VpnError::Other(m) => m@,
        }
    }

    /// The error as text: its kind, then its message.
    pub fn to_string(&self) -> (s: String)
        ensures
            !(self is Io) ==> s@ == self.display_prefix() + self.payload(),
            self is Io ==> s@.len() >= self.display_prefix().len() && s@.subrange(
                0,
                self.display_prefix().len() as int,
            ) == self.display_prefix(),
    {
        match self {
            VpnError::Config(m) => join2("Configuration error: ", m.as_str()),
            VpnError::Configuration(m) => join2("Configuration validation error: ", m.as_str()),
            VpnError::Network(m) => join2("Network error: ", m.as_str()),
            VpnError::Connection(m) => join2("Connection failed: ", m.as_str()),
            VpnError::Authentication(m) => join2("Authentication failed: ", m.as_str()),
            VpnError::Protocol(m) => join2("Protocol error: ", m.as_str()),
            VpnError::Crypto(m) => join2("Cryptographic error: ", m.as_str()),
            VpnError::Platform(m) => join2("Platform error: ", m.as_str()),
            VpnError::TunTap(m) => join2("TUN/TAP error: ", m.as_str()),
            VpnError::Routing(m) => join2("Routing error: ", m.as_str()),
            VpnError::Dns(m) => join2("DNS error: ", m.as_str()),
            VpnError::Permission(m) => join2("Permission error: ", m.as_str()),
            VpnError::ConnectionLimitReached(m) => join2("Connection limit reached: ", m.as_str()),
            VpnError::RateLimitExceeded(m) => join2("Rate limit exceeded: ", m.as_str()),
            VpnError::RetryLimitExceeded(m) => join2("Retry limit exceeded: ", m.as_str()),
            VpnError::Io(e) => {
                let t = e.to_string();
                let s = join2("IO error: ", t.as_str());
                assert(s@.subrange(0, "IO error: "@.len() as int) =~= "IO error: "@);
                s
            },
            VpnError::Tls(m) => join2("TLS error: ", m.as_str()),
            VpnError::Timeout(m) => join2("Operation timed out: ", m.as_str()),
            VpnError::InvalidState(m) => join2("Invalid state: ", m.as_str()),
            VpnError::Other(m) => join2("Other error: ", m.as_str()),
        }
    }
}

impl From<std::io::Error> for VpnError {
    fn from(err: std::io::Error) -> (r: Self) {
        VpnError::Io(err)
    }
}

impl vstd::std_specs::convert::FromSpecImpl<std::io::Error> for VpnError {
    open spec fn obeys_from_spec() -> bool {
        true
    }

    open spec fn from_spec(err: std::io::Error) -> Self {
        VpnError::Io(err)
    }
}

/// Helper trait for converting errors to `VpnError`.
pub trait IntoVpnError<T>: Sized {
    fn into_vpn_error(self, context: &str) -> Result<T>;
}

/// The text `context: message`.
pub open spec fn with_context(context: Seq<char>, message: Seq<char>) -> Seq<char> {
    context + ": "@ + message
}

impl<T, E: core::fmt::Display> IntoVpnError<T> for std::result::Result<T, E> {
    /// Keeps a success; turns a failure into `VpnError::Other` whose message is
    /// the context, `": "` and the displayed error.
    fn into_vpn_error(self, context: &str) -> (r: Result<T>)
        ensures
            self is Ok ==> r is Ok && r->Ok_0 == self->Ok_0,
            self is Err ==> (r matches Err(VpnError::Other(m)) && exists|shown: String|
                vstd::string::to_string_from_display_ensures::<E>(&self->Err_0, shown) && m@
                    == with_context(context@, shown@)),
    {
        match self {
            Ok(v) => Ok(v),
            Err(e) => {
                let shown = e.to_string();
                let head = join2(context, ": ");
                let m = join2(head.as_str(), shown.as_str());
                assert(m@ == with_context(context@, shown@));
                Err(VpnError::Other(m))
            },
        }
    }
}

} // verus!
