//! What the session layer shares with the simulation: the handles, the
//! input records, and the simulation's own bookkeeping of events and score.

pub mod entityid;
pub mod enums;
pub mod eventqueue;
pub mod input;
pub mod playercontroller;
pub mod playerid;
pub mod scoremanager;
pub mod util;
pub mod world;
