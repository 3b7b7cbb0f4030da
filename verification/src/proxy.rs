//! A proxy that speaks the Minecraft protocol to clients itself.

pub mod packet;
pub mod session;
