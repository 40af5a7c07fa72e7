//! Incremental collision detection for a population of moving bodies:
//! change tracking, a spatial index of bounds, a broad/narrow phase
//! pipeline producing contact events, and the current-frame advance.

pub mod geometry;
pub mod dirty;
pub mod index;
pub mod collide;
pub mod system;
pub mod frame;
