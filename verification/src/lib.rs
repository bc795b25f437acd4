//! A verified Monte-Carlo path tracer core.
//!
//! Geometry and radiance values are fixed-point scalars (an `i64` holding
//! the value times [`fixed::FX_ONE`]), so every operation of the rendering
//! core has an exact arithmetic contract.

pub mod fixed;
pub mod geometry;
pub mod integrator;
pub mod materials;
pub mod random;
pub mod ray;
pub mod raytracing;
pub mod vec3;
