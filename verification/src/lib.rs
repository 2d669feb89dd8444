//! Core of an N-body gravitational simulator.
//!
//! A set of point masses evolves under mutual Newtonian gravity: every
//! simulation step computes pairwise accelerations from the bodies'
//! current positions, updates every velocity, and only then advances
//! every position (semi-implicit Euler).  Rendering, configuration
//! parsing and platform glue are external collaborators at the
//! library's edge; this crate holds the physics itself.
//!
//! All kinematic quantities are carried in a saturating fixed-point
//! scalar type ([`fixed::Fx`]), so that every step of the integrator has
//! an exact, machine-checked description.

pub mod args;
pub mod consts;
pub mod fixed;
pub mod physics;
pub mod vector;
