//! Client side of a game-server multiplayer protocol: the length-prefixed
//! framing, the mod-list codec and the handshake state machine.
pub mod auth;
pub mod bootstrap;
pub mod decimal;
pub mod framing;
pub mod handshake;
pub mod modlist;
