//! Session layer of an authoritative host/client game.
//!
//! The crate holds the decisions of the session layer as plain state
//! machines: each component takes the event that reached it and hands back
//! the actions to perform. Sockets, channels, timers and tasks live with the
//! caller, which performs the actions and feeds the next event in.

pub mod game;
pub mod network;
pub mod sequence;
pub mod startup;
