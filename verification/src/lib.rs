//! A deterministic 2D particle-and-constraint physics library.
//!
//! Point masses ("vertices") are connected by spring-damper constraints
//! ("surfaces"), integrated under gravity, with continuous collision
//! detection between vertices and moving constraint segments, resolved by
//! impulse-based response with restitution and friction.
//!
//! All quantities are fixed-point numbers: an `i64` counts units of
//! `1 / FX_SCALE`, and every operation saturates at `FX_LIMIT`, so the
//! simulation is exact integer arithmetic from end to end.

pub mod fixed;
pub mod vec2;
pub mod surface;
pub mod simulation;
pub mod collisions;
pub mod shapes;
pub mod viewer;
