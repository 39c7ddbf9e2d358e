//! Combat resolution and game lifecycle rules of a tick-driven minigame
//! server, over plain integer state.
//!
//! Lengths are fixed point: one unit is a thousandth of a block. Speeds are
//! in the same unit per tick, health in thousandths of a health point.

pub mod knockback;
pub mod combat;
pub mod inventory;
pub mod world;
pub mod building;
pub mod laws;
