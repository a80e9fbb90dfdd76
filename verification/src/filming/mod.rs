//! Films: the pixel grids that a render is gathered into.

pub mod film;
pub mod tiles;
