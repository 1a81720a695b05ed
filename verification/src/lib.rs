//! A fixed set of moving points, stored under one of four memory layouts
//! and advanced in place by `position += dt * velocity`.
//!
//! Every layout holds the same rows and every step computes each lane by
//! the same two operations, so the layouts differ only in the order in
//! which memory is touched. The lane arithmetic comes from the `Scalar`
//! implementation that the caller picks.

pub mod aos;
pub mod aosoa;
pub mod axis_columns;
pub mod batch;
pub mod column;
pub mod flags;
pub mod lanes;
pub mod laws;
pub mod packed;
pub mod particle;
pub mod quads;
pub mod scalar;
pub mod store;
