//! A single-threaded entity-component runtime together with the
//! collision-driven gameplay event pipeline built on top of it: entity
//! identity allocation, typed component tables, predicate-based querying,
//! deferred destruction, circle-based collision detection, and the
//! damage/death event correlation that turns raw collisions into health
//! changes, invulnerability windows, and entity removal.
//!
//! All quantities that gameplay reads are plain integers: durations and
//! elapsed times are ticks, world coordinates and radii are fixed-point
//! units, hit points are fixed-point as well. Rendering, audio, input and
//! window concerns live outside this crate and only exchange such plain
//! values with it.

pub mod collision;
pub mod damage;
pub mod ecs;
pub mod entity;
pub mod events;
pub mod frame;
pub mod player;
pub mod tags;
pub mod timer;
