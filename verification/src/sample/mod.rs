//! Sample storage for samplers.

pub mod sink;
