//! Wire formats and game logic of a Minecraft server that talks to its
//! clients through a reverse proxy.

pub mod bigendian;
pub mod text;
pub mod varint;
pub mod protocol;
pub mod util;
pub mod common;
pub mod proxy;
pub mod server;
