//! Chat messages, the server's configuration and game packets.

pub mod chat;
pub mod config;
pub mod packet;
