//! A 2D rigid-body physics core: semi-implicit Euler integration, pairwise
//! collision detection between circles and axis-aligned rectangles, and
//! impulse-based collision resolution with restitution and approximate
//! Coulomb friction.
//!
//! All quantities are fixed-point scalars with six decimal places (see
//! [`fx::SCALE`]), so every arithmetic step has an exact integer meaning
//! that the contracts state and the proofs track.

pub mod bodies;
pub mod collisions;
pub mod fx;
pub mod laws;
pub mod solver;
pub mod vec2;
pub mod world;

pub use bodies::{Body, BodyError, BodyType, Material, Shape};
pub use collisions::{detect_collisions, Collision};
pub use fx::SCALE;
pub use solver::resolve_collisions;
pub use vec2::Vec2;
pub use world::World;
