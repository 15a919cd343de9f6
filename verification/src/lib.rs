//! A fixed-timestep n-body simulation engine: celestial bodies, player
//! ships and projectiles attract one another gravitationally, collide, and
//! are culled once destroyed or carried past the escape distance.
//!
//! Every world quantity (position, velocity, orientation, mass, size) is a
//! signed 64-bit fixed-point number with `fx::SCALE` sub-units per world
//! unit, so each tick is exact integer arithmetic, reproducible run to
//! run. Windowing, input polling and rendering are outside collaborators:
//! the engine consumes plain control signals and exposes plain pose
//! tuples carrying opaque sprite handles.

pub mod fx;
pub mod sqrt;
pub mod trig;
pub mod space_object;
pub mod sim;
pub mod laws;
