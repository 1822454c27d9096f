//! Protocol constants.

use vstd::prelude::*;

verus! {

/// Default server port.
pub const DEFAULT_PORT: u16 = 443;

/// Default hub name.
pub const DEFAULT_HUB: &'static str = "VPN";

/// HTTP endpoint for the watermark handshake and PACK exchange.
pub const WATERMARK_ENDPOINT: &'static str = "/vpnsvc/connect.cgi";

/// Content type of PACK bodies.
pub const HTTP_CONTENT_TYPE_PACK: &'static str = "application/octet-stream";

/// Keep-alive header value.
pub const HTTP_KEEP_ALIVE: &'static str = "timeout=15, max=100";

/// Magic number that opens every framed protocol packet ("SEVP").
pub const MAGIC_NUMBER: u32 = 0x5345_5650;

} // verus!
