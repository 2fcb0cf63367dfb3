//! Session and game registry for a multiplayer turn-based game server: identifiers,
//! change notification, per-game lifecycle rules, the Connect Four and Snake rules
//! engines, and the listing engine.

pub mod ids;
pub mod notify;
pub mod game;
pub mod api;
