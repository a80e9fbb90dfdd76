//! Points, vectors and bounding boxes over integer coordinates.

pub mod coord;
pub mod model;
pub mod point;
pub mod bbox;
pub mod laws;
