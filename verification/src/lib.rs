//! The networking and game-state logic of a two-player pointer-sharing game.
//!
//! * [`fetch`] — peer discovery over UDP multicast: the hello datagram, the
//!   rule that admits a responder as a peer, and the pairing connection state.
//! * [`network`] — the client link: pairing and position-exchange procedures
//!   as step functions, the position datagram and the game messages.
//! * [`game`] — the pointer positions a game session tracks.
//!
//! Sockets, rendering and physics live outside this crate; it decides what is
//! sent and what a received datagram means.

pub mod fetch;
pub mod network;
pub mod game;
