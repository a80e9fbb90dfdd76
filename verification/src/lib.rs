//! Integer geometry, sample sinks and film grids for a path-tracing renderer.

pub mod geometry;
pub mod sample;
pub mod filming;
pub mod lighting;
pub mod bxdf;
pub mod component;
