//! Packets exchanged with the proxy, and protocol versions.

pub mod packet;
pub mod version;
