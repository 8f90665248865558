//! Navigation and steering core for wandering agents in a 2D world.
//!
//! The library models a tile-world navigation subsystem: polygonal walkable
//! regions with point containment and interior sampling, per-agent wander
//! state machines (idle / walking), waypoint path following, and steering
//! with local separation between agents. All geometry uses exact integer
//! arithmetic on fixed-point world coordinates; the caller picks the unit
//! scale. Path queries against a navigation mesh are an external service:
//! the caller performs them and hands the resulting waypoint lists in.

pub mod agent;
pub mod math;
pub mod path;
pub mod region;
pub mod rng;
pub mod steering;
pub mod vec2;
