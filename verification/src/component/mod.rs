//! Scene components.

pub mod bvh;
