//! Packets that the game sends to clients.

pub mod join_game;
