//! SoftEther SSL-VPN protocol: wire formats and session state.

pub mod constants;
pub mod pack;
pub mod packets;
pub mod binary;
pub mod session;
pub mod watermark;
pub mod handler;
