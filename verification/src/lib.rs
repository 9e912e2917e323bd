//! Tick-synchronous combat resolution and match-lifecycle rules for
//! round-based duel minigames.
//!
//! Many matches run side by side in one simulated world. The rules work on
//! plain values: the caller feeds in the events of one tick and the records of
//! the entities they name, and gets back the updated records together with the
//! effects to present and the matches to end. Player inventories are valence's
//! and are filled in place.

pub mod model;
pub mod roster;
pub mod combat;
pub mod rules;
pub mod bounds;
pub mod inventory;
pub mod sumo;
pub mod boxing;
pub mod classic;
pub mod boxmix;
pub mod telemetry;
pub mod bench;
