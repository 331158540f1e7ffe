//! Verified core of a grid-simulation point renderer.
//!
//! A grid of generic cells is turned into a point cloud: one vertex per cell
//! that passes a caller-supplied filter, colored by a caller-supplied color
//! function, positioned in normalized device coordinates by its row-major
//! index alone.  Positions are kept as exact integer grid coordinates here;
//! the GPU-facing layer converts them to floats.

pub mod shape;
pub mod vertex;
