//! A small simulation of circular entities ("balls") bouncing inside a
//! rectangular viewport, with pairwise collision detection.
//!
//! Geometry is modelled on an integer grid: positions, radii and speeds are
//! `i64` values, and the circle-overlap test compares squared distances, which
//! is exact. The per-tick step (movement, boundary reflection, collision scan
//! and resolution) is fully verified; randomized construction draws its values
//! through thin trusted wrappers over the `rand` crate, and rendering is left
//! to an unverified front end.

pub mod ball;
pub mod entropy;
pub mod simulation;
