//! The game server: its table of connected clients and its handling of
//! packets from the proxy.

pub mod clients;
pub mod handler;
