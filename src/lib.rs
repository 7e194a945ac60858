//! A two-player Pong simulation on fixed-point integer coordinates.
//!
//! Lengths are in sub-units (`UNIT` of them make one window unit), time is
//! in microseconds and velocities are in sub-units per microsecond.
pub mod components;
pub mod physics;
pub mod world;
pub mod laws;
