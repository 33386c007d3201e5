//! A frame-stepped combat core for a real-time skirmish between a player's
//! faction and hostile units: targeting, movement, melee, damage, display
//! state and drag-box command, each as a verified pass over one actor table.
use vstd::prelude::*;

pub mod geometry;
pub mod timer;
pub mod actor;
pub mod targeting;
pub mod movement;
pub mod combat;
pub mod damage;
pub mod classify;
pub mod selection;
pub mod player;
pub mod frame;
pub mod spawn;
pub mod collision;

verus! {

} // verus!
