//! rVPNSE: a SoftEther SSL-VPN client library.
//!
//! The verified part of the library holds the protocol encodings (PACK, the
//! framed packet formats), the configuration rules, the connection
//! bookkeeping and the decisions of the client state machine.

pub mod wire;
pub mod config;
pub mod clock;
pub mod random;
pub mod client;
pub mod client_optimized;
pub mod text;
pub mod scan;
pub mod error;
pub mod unicode;
pub mod net;
pub mod ipv4_text;
pub mod ip_text;
pub mod protocol;
pub mod tunnel;
pub mod crypto;
pub mod c_api;
pub mod cli;
